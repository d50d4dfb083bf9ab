use chip8::gpu::{Collision, Gpu, PixelBuffer, HEIGHT, WIDTH};

#[test]
fn pb_write() {
    let pixels: Vec<u32> = vec![1, 2, 3, 4];
    let mut pb = PixelBuffer::<u32>::new();

    pb.write(pixels.as_slice());
    let mut got = vec![0u32; 4];
    pb.read_pos(0, 0, &mut got);
    assert_eq!(got, vec![1, 2, 3, 4]);

    pb.write_pos(0, 1, pixels.as_slice());
    let mut got = vec![0u32; 4];
    pb.read_pos(0, 1, &mut got);
    assert_eq!(got, vec![1, 2, 3, 4]);

    pb.write_pos(6, 4, pixels.as_slice());
    let mut got = vec![0u32; 4];
    pb.read_pos(6, 4, &mut got);
    assert_eq!(got, vec![1, 2, 3, 4]);
}

#[test]
fn pb_write_wrapping() {
    let pixels: Vec<u32> = vec![4, 3, 2, 1];
    let mut pb = PixelBuffer::<u32>::new();

    pb.write_pos(WIDTH - 1, HEIGHT - 1, pixels.as_slice());
    let mut last = vec![0u32; 1];
    pb.read_pos(WIDTH - 1, HEIGHT - 1, &mut last);
    assert_eq!(last, vec![4]);
    let mut head = vec![0u32; 3];
    pb.read_pos(0, 0, &mut head);
    assert_eq!(head, vec![3, 2, 1]);
}

#[test]
fn pb_read() {
    let pixels: Vec<u32> = vec![1, 2, 3, 4];
    let mut pb = PixelBuffer::<u32>::new();
    pb.write(pixels.as_slice());
    pb.write_pos(7, 7, pixels.as_slice());

    {
        let mut buf = vec![0u32; 4];
        pb.read(&mut buf);
        assert_eq!(buf, vec![1, 2, 3, 4]);
    }
    {
        let mut buf = vec![0u32; 4];
        pb.read_pos(7, 7, &mut buf);
        assert_eq!(buf, vec![1, 2, 3, 4]);
    }
}

fn fb_to_byte(gpu: &Gpu, start: usize) -> u8 {
    gpu.pixels()
        .iter()
        .skip(start)
        .take(8)
        .fold(0u8, |s, &v| (s << 1) | v as u8)
}

#[test]
fn gpu_write_sprite() {
    let mut gpu = Gpu::new();
    let sprite: Vec<u8> = vec![0b11110000, 0b00001111];

    // write some sprite
    assert_eq!(
        gpu.write_sprite(0, 0, sprite.as_slice()),
        Collision::NoCollision
    );
    assert_eq!(fb_to_byte(&gpu, 0), 0b11110000);
    assert_eq!(fb_to_byte(&gpu, WIDTH), 0b00001111);

    // write same sprite -> collision
    assert_eq!(
        gpu.write_sprite(0, 0, sprite.as_slice()),
        Collision::Collision
    );
    assert_eq!(fb_to_byte(&gpu, 0), 0b00000000);
    assert_eq!(fb_to_byte(&gpu, WIDTH), 0b00000000);
}

#[test]
fn sprite_redraw_restores_cleared_buffer() {
    let mut gpu = Gpu::new();
    let sprite: Vec<u8> = vec![0x3c, 0x42, 0x42, 0x3c];

    assert_eq!(
        gpu.write_sprite(20, 9, sprite.as_slice()),
        Collision::NoCollision
    );
    assert_eq!(fb_to_byte(&gpu, 9 * WIDTH + 20), 0x3c);
    assert_eq!(fb_to_byte(&gpu, 10 * WIDTH + 20), 0x42);
    assert_eq!(fb_to_byte(&gpu, 11 * WIDTH + 20), 0x42);
    assert_eq!(fb_to_byte(&gpu, 12 * WIDTH + 20), 0x3c);

    assert_eq!(
        gpu.write_sprite(20, 9, sprite.as_slice()),
        Collision::Collision
    );
    assert!(gpu.pixels().iter().all(|&p| !p));
}

#[test]
fn sprite_row_wraps_linearly() {
    // An in-bounds origin near the right edge wraps pixels within the row
    // onto the start of the next linear row, not back to its own row.
    let mut gpu = Gpu::new();
    let sprite: Vec<u8> = vec![0xff];
    assert_eq!(
        gpu.write_sprite(60, 3, sprite.as_slice()),
        Collision::NoCollision
    );
    let px = gpu.pixels();
    for k in 0..4 {
        assert!(px[3 * WIDTH + 60 + k]);
        assert!(px[4 * WIDTH + k]);
    }
}

#[test]
fn clear_turns_every_pixel_off() {
    let mut gpu = Gpu::new();
    let sprite: Vec<u8> = vec![0xff, 0xff];
    gpu.write_sprite(5, 5, sprite.as_slice());
    assert!(gpu.pixels().iter().any(|&p| p));
    gpu.clear();
    assert!(gpu.pixels().iter().all(|&p| !p));
    assert_eq!(gpu.pixels().len(), WIDTH * HEIGHT);
}
