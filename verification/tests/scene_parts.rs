use duck::cubemap::{cube_corners, cube_indices, decode_cubemap_faces, indices_len};
use duck::input::{ElementState, InputState, MouseButton, WindowEvent};
use duck::spline::{clamped_knots, duck_path_knots, DEGREE, NUM_POINTS};
use duck::texture::decode_texture;
use duck::water::{cell_from_samples, clamp_grid_position, random_drop_cell, LAST_CELL};

fn press(button: MouseButton) -> WindowEvent {
    WindowEvent::MouseInput { state: ElementState::Pressed, button }
}

fn release(button: MouseButton) -> WindowEvent {
    WindowEvent::MouseInput { state: ElementState::Released, button }
}

#[test]
fn buttons_start_released() {
    let s = InputState::default();
    assert!(!s.lmb_pressed && !s.rmb_pressed);
}

#[test]
fn left_and_right_buttons_are_tracked_apart() {
    let mut s = InputState::default();
    s.on_window_event(&press(MouseButton::Left));
    assert_eq!(s, InputState { lmb_pressed: true, rmb_pressed: false });
    s.on_window_event(&press(MouseButton::Right));
    assert_eq!(s, InputState { lmb_pressed: true, rmb_pressed: true });
    s.on_window_event(&release(MouseButton::Left));
    assert_eq!(s, InputState { lmb_pressed: false, rmb_pressed: true });
}

#[test]
fn other_buttons_and_events_change_nothing() {
    let mut s = InputState { lmb_pressed: true, rmb_pressed: false };
    s.on_window_event(&press(MouseButton::Middle));
    s.on_window_event(&release(MouseButton::Other(7)));
    s.on_window_event(&WindowEvent::Other);
    assert_eq!(s, InputState { lmb_pressed: true, rmb_pressed: false });
}

#[test]
fn same_event_twice_is_once() {
    let mut s = InputState::default();
    s.on_window_event(&press(MouseButton::Right));
    let once = s;
    s.on_window_event(&press(MouseButton::Right));
    assert_eq!(s, once);
}

#[test]
fn duck_path_knot_vector() {
    assert_eq!(duck_path_knots(), vec![0, 0, 0, 0, 1, 2, 3, 4, 5, 5, 5, 5]);
    assert_eq!(clamped_knots(NUM_POINTS, DEGREE).len(), NUM_POINTS + DEGREE + 1);
}

#[test]
fn other_knot_vectors() {
    assert_eq!(clamped_knots(2, 1), vec![0, 0, 1, 1]);
    assert_eq!(clamped_knots(4, 0), vec![0, 1, 2, 3, 4]);
    assert_eq!(clamped_knots(5, 2), vec![0, 0, 0, 1, 2, 3, 3, 3]);
}

#[test]
fn knots_never_decrease_and_spans_are_unit() {
    let k = clamped_knots(NUM_POINTS, DEGREE);
    for w in k.windows(2) {
        assert!(w[0] <= w[1]);
    }
    for m in 0..(NUM_POINTS - DEGREE) {
        assert_eq!(k[m + DEGREE], m as u32);
        assert_eq!(k[m + DEGREE + 1], m as u32 + 1);
    }
}

#[test]
fn cube_indices_and_corners() {
    let idx = cube_indices();
    assert_eq!(idx.len(), 36);
    assert_eq!(indices_len(), 36);
    assert_eq!(&idx[..6], &[0, 1, 2, 0, 2, 3]);
    let c = cube_corners();
    assert_eq!(c.len(), 8);
    assert_eq!(c[6], (1, 1, 1));
    assert!(idx.iter().all(|&i| (i as usize) < c.len()));
}

#[test]
fn cube_triangles_face_the_centre() {
    let idx = cube_indices();
    let c = cube_corners();
    for tri in idx.chunks(3) {
        let p = |i: u16| {
            let (x, y, z) = c[i as usize];
            (x as i32, y as i32, z as i32)
        };
        let (a, b, d) = (p(tri[0]), p(tri[1]), p(tri[2]));
        let u = (b.0 - a.0, b.1 - a.1, b.2 - a.2);
        let w = (d.0 - a.0, d.1 - a.1, d.2 - a.2);
        let n = (u.1 * w.2 - u.2 * w.1, u.2 * w.0 - u.0 * w.2, u.0 * w.1 - u.1 * w.0);
        assert!(n.0 * a.0 + n.1 * a.1 + n.2 * a.2 < 0);
    }
}

#[test]
fn drop_cells_wrap_samples() {
    assert_eq!(cell_from_samples(300, 5, 256), (44, 5));
    assert_eq!(cell_from_samples(u32::MAX, 256, 256), (255, 0));
    for _ in 0..100 {
        let (c, r) = random_drop_cell(256);
        assert!(c < 256 && r < 256);
    }
    assert_eq!(random_drop_cell(1), (0, 0));
}

#[test]
fn duck_cell_is_clamped() {
    assert_eq!(clamp_grid_position(0, 255), (0, 255));
    assert_eq!(clamp_grid_position(256, 9000), (LAST_CELL, LAST_CELL));
}

fn png(w: u32, h: u32, px: &[u8]) -> Vec<u8> {
    let img = image::RgbaImage::from_raw(w, h, px.to_vec()).unwrap();
    let mut out = std::io::Cursor::new(Vec::new());
    img.write_to(&mut out, image::ImageFormat::Png).unwrap();
    out.into_inner()
}

#[test]
fn faces_are_decoded_in_order() {
    let a: Vec<u8> = (0u8..16).collect();
    let b: Vec<u8> = (100u8..116).collect();
    let faces = vec![png(2, 2, &a), png(2, 2, &b)];
    let c = decode_cubemap_faces(&faces).ok().unwrap();
    assert_eq!(c.size, 2);
    assert_eq!(c.pixels, vec![a, b]);
}

#[test]
fn the_first_face_that_does_not_decode_is_reported() {
    let a: Vec<u8> = vec![9; 4];
    let faces = vec![png(1, 1, &a), b"not an image".to_vec(), vec![]];
    match decode_cubemap_faces(&faces) {
        Ok(_) => panic!("decoded garbage"),
        Err(e) => assert_eq!(e.face, 1),
    }
}

fn jpeg(w: u32, h: u32, px: &[u8]) -> Vec<u8> {
    let img = image::RgbImage::from_raw(w, h, px.to_vec()).unwrap();
    let mut out = std::io::Cursor::new(Vec::new());
    img.write_to(&mut out, image::ImageFormat::Jpeg).unwrap();
    out.into_inner()
}

#[test]
fn texture_is_decoded_as_jpeg() {
    let bytes = jpeg(4, 2, &[200u8; 4 * 2 * 3]);
    let (w, h, px) = decode_texture(&bytes).ok().unwrap();
    assert_eq!((w, h), (4, 2));
    assert_eq!(px.len(), 4 * 2 * 4);
    for p in px.chunks(4) {
        assert!((p[0] as i32 - 200).abs() <= 3);
        assert_eq!(p[3], 255);
    }
}

#[test]
fn texture_that_is_not_jpeg_is_refused() {
    let png_bytes = png(1, 1, &[1, 2, 3, 4]);
    assert!(decode_texture(&png_bytes).is_err());
    assert!(decode_texture(b"").is_err());
}

#[test]
fn faces_are_recognised_by_their_content() {
    let a: Vec<u8> = vec![50; 4 * 3];
    let faces = vec![png(2, 2, &[7; 16]), jpeg(2, 2, &a)];
    let c = decode_cubemap_faces(&faces).ok().unwrap();
    assert_eq!(c.size, 2);
    assert_eq!(c.pixels[0], vec![7; 16]);
    assert_eq!(c.pixels[1].len(), 16);
}
