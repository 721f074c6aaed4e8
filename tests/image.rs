use std::rc::Rc;

use gbjam4::assets::load_image;
use gbjam4::gfx::blit::Blit;
use gbjam4::gfx::image::{Image, ImageDelegate, SubImage};
use gbjam4::gfx::sprite::Sprite;
use gbjam4::math::rect::Rect;
use gbjam4::math::size::Size;
use gbjam4::math::Position;

fn image_from(w: u32, h: u32, pixels: &[u8]) -> Image {
    let mut img = Image::new((w, h), 0u8);
    for (i, p) in pixels.iter().enumerate() {
        img.set_index(i, *p).unwrap();
    }
    img
}

#[test]
fn new_image_is_filled() {
    let img = Image::new((3u32, 2u32), 7u8);
    assert_eq!(img.size(), Size::new(3, 2));
    assert_eq!(img.buffer(), &vec![7u8; 6]);
}

#[test]
fn pixels_are_row_major() {
    let mut img = Image::new((3u32, 2u32), 0u8);
    img.set_pixel((2, 1), 3).unwrap();
    img.set_pixel((1, 0), 2).unwrap();
    assert_eq!(img.buffer(), &vec![0, 2, 0, 0, 0, 3]);
    assert_eq!(img.get_pixel((2, 1)), Ok(3));
    assert_eq!(img.get_pixel((1, 0)), Ok(2));
    assert_eq!(img.get_pixel((0, 0)), Ok(0));
}

#[test]
fn pixel_access_out_of_range_fails() {
    let mut img = Image::new((3u32, 2u32), 1u8);
    assert!(img.get_pixel((3, 0)).is_err());
    assert!(img.get_pixel((0, 2)).is_err());
    assert!(img.set_pixel((3, 1), 2).is_err());
    assert!(img.set_pixel((0, 2), 2).is_err());
    assert_eq!(img.buffer(), &vec![1u8; 6]);
}

#[test]
fn set_index_bounds() {
    let mut img = Image::new((2u32, 2u32), 0u8);
    assert!(img.set_index(3, 5).is_ok());
    assert_eq!(img.set_index(4, 5), Err("Invalid index".to_string()));
    assert_eq!(img.buffer(), &vec![0, 0, 0, 5]);
}

#[test]
fn blit_copies_opaque_pixels_within_clip() {
    let src = image_from(3, 3, &[1, 2, 3, 3, 2, 1, 0, 0, 0]);
    let mut target = Image::new((4u32, 4u32), 2u8);
    src.blit_to(None, &mut target, None);
    assert_eq!(
        target.buffer(),
        &vec![1, 2, 3, 2, 3, 2, 1, 2, 0, 0, 0, 2, 2, 2, 2, 2]
    );
}

#[test]
fn blit_is_clipped_to_the_target() {
    let src = Image::new((6u32, 6u32), 3u8);
    let mut target = Image::new((2u32, 3u32), 0u8);
    src.blit_to(None, &mut target, None);
    assert_eq!(target.buffer(), &vec![3u8; 6]);
}

#[test]
fn blit_with_rectangles_uses_shared_coordinates() {
    let src = Image::new((4u32, 4u32), 1u8);
    let mut target = Image::new((4u32, 4u32), 0u8);
    src.blit_to(Some(Rect::new(1, 1, 2, 2)), &mut target, Some(Rect::new(0, 0, 4, 4)));
    assert_eq!(
        target.buffer(),
        &vec![0, 0, 0, 0, 0, 1, 1, 0, 0, 1, 1, 0, 0, 0, 0, 0]
    );
}

#[test]
fn blit_with_disjoint_rectangles_is_noop() {
    let src = Image::new((4u32, 4u32), 1u8);
    let mut target = Image::new((4u32, 4u32), 0u8);
    src.blit_to(Some(Rect::new(0, 0, 2, 2)), &mut target, Some(Rect::new(3, 3, 1, 1)));
    assert_eq!(target.buffer(), &vec![0u8; 16]);
}

#[test]
fn blit_twice_equals_blit_once() {
    let src = image_from(2, 2, &[1, 3, 2, 0]);
    let mut once = image_from(3, 3, &[3, 3, 3, 2, 2, 2, 1, 1, 1]);
    src.blit_to(None, &mut once, None);
    let mut twice = image_from(3, 3, &[3, 3, 3, 2, 2, 2, 1, 1, 1]);
    src.blit_to(None, &mut twice, None);
    src.blit_to(None, &mut twice, None);
    assert_eq!(once.buffer(), twice.buffer());
    assert_eq!(once.buffer(), &vec![1, 3, 3, 2, 0, 2, 1, 1, 1]);
}

#[test]
fn transparent_pixels_leave_target_unchanged() {
    let src = image_from(2, 2, &[4, 1, 200, 4]);
    let mut target = Image::new((2u32, 2u32), 3u8);
    src.blit_to(None, &mut target, None);
    assert_eq!(target.buffer(), &vec![3, 1, 3, 3]);
}

#[test]
fn delegate_blits_its_image() {
    let shared = Rc::new(Image::new((2u32, 2u32), 2u8));
    let whole = ImageDelegate::ImageBuf(shared.clone());
    let mut target = Image::new((3u32, 3u32), 0u8);
    whole.blit_to(None, &mut target, None);
    assert_eq!(target.buffer(), &vec![2, 2, 0, 2, 2, 0, 0, 0, 0]);
}

#[test]
fn sub_image_blits_only_its_rectangle() {
    let shared = Rc::new(Image::new((3u32, 3u32), 1u8));
    let view = ImageDelegate::ImageRef(SubImage::new(shared.clone(), Rect::new(1, 1, 2, 1)).unwrap());
    let copy = view.clone();
    let mut target = Image::new((3u32, 3u32), 0u8);
    copy.blit_to(None, &mut target, None);
    assert_eq!(target.buffer(), &vec![0, 0, 0, 0, 1, 1, 0, 0, 0]);
    let corner = ImageDelegate::ImageRef(SubImage::new(shared, Rect::new(0, 0, 1, 1)).unwrap());
    let mut other = Image::new((3u32, 3u32), 0u8);
    corner.blit_to(None, &mut other, None);
    assert_eq!(other.buffer(), &vec![1, 0, 0, 0, 0, 0, 0, 0, 0]);
}

#[test]
fn sub_image_with_source_rectangle() {
    let shared = Rc::new(Image::new((4u32, 4u32), 2u8));
    let view = ImageDelegate::ImageRef(SubImage::new(shared, Rect::new(1, 1, 3, 3)).unwrap());
    let mut target = Image::new((4u32, 4u32), 0u8);
    view.blit_to(Some(Rect::new(0, 0, 3, 3)), &mut target, None);
    assert_eq!(
        target.buffer(),
        &vec![0, 0, 0, 0, 0, 2, 2, 0, 0, 2, 2, 0, 0, 0, 0, 0]
    );
}

#[test]
fn sub_image_with_source_rectangle_starting_inside_view() {
    let shared = Rc::new(Image::new((16u32, 16u32), 1u8));
    let view = ImageDelegate::ImageRef(SubImage::new(shared.clone(), Rect::new(0, 0, 8, 8)).unwrap());
    let mut target = Image::new((16u32, 16u32), 0u8);
    view.blit_to(Some(Rect::new(4, 4, 8, 8)), &mut target, None);
    let mut whole = Image::new((16u32, 16u32), 0u8);
    shared.blit_to(Some(Rect::new(4, 4, 8, 8)), &mut whole, None);
    for y in 0..16usize {
        for x in 0..16usize {
            let expected = if (4..8).contains(&x) && (4..8).contains(&y) { 1 } else { 0 };
            assert_eq!(target.buffer()[y * 16 + x], expected);
            if target.buffer()[y * 16 + x] != 0 {
                assert_eq!(whole.buffer()[y * 16 + x], target.buffer()[y * 16 + x]);
            }
        }
    }
}

#[test]
fn sub_image_with_source_rectangle_outside_view_is_noop() {
    let shared = Rc::new(Image::new((8u32, 8u32), 2u8));
    let view = ImageDelegate::ImageRef(SubImage::new(shared, Rect::new(0, 0, 2, 2)).unwrap());
    let mut target = Image::new((8u32, 8u32), 0u8);
    view.blit_to(Some(Rect::new(4, 4, 2, 2)), &mut target, None);
    assert_eq!(target.buffer(), &vec![0u8; 64]);
}

#[test]
fn sub_image_rectangle_must_lie_inside() {
    let shared = Rc::new(Image::new((2u32, 2u32), 1u8));
    assert!(SubImage::new(shared.clone(), Rect::new(0, 0, 2, 2)).is_some());
    assert!(SubImage::new(shared.clone(), Rect::new(1, 0, 2, 2)).is_none());
    assert!(SubImage::new(shared.clone(), Rect::new(-1, 0, 1, 1)).is_none());
    let view = SubImage::new(shared, Rect::new(1, 1, 1, 1)).unwrap();
    assert_eq!((view.rect().x(), view.rect().y(), view.rect().w(), view.rect().h()), (1, 1, 1, 1));
    assert_eq!(view.image().buffer(), &vec![1u8; 4]);
}

#[test]
fn sprite_at_origin_draws_whole_image() {
    let sprite = Sprite::new(
        ImageDelegate::ImageBuf(Rc::new(Image::new((2u32, 2u32), 1u8))),
        Position::new(0, 0),
    );
    let mut target = Image::new((3u32, 3u32), 0u8);
    sprite.blit_to(None, &mut target, None);
    assert_eq!(target.buffer(), &vec![1, 1, 0, 1, 1, 0, 0, 0, 0]);
}

#[test]
fn sprite_offset_moves_destination_window() {
    // The offset moves the destination rectangle; pixels are copied at the
    // coordinates of the clipped window, which keeps the source's near edges.
    let sprite = Sprite::new(
        ImageDelegate::ImageBuf(Rc::new(Image::new((3u32, 3u32), 2u8))),
        Position::new(-1, -1),
    );
    let mut target = Image::new((3u32, 3u32), 0u8);
    sprite.blit_to(None, &mut target, None);
    assert_eq!(target.buffer(), &vec![2, 2, 0, 2, 2, 0, 0, 0, 0]);
    let far = Sprite::new(
        ImageDelegate::ImageBuf(Rc::new(Image::new((2u32, 2u32), 2u8))),
        Position::new(3, 3),
    );
    let mut untouched = Image::new((3u32, 3u32), 0u8);
    far.blit_to(None, &mut untouched, None);
    assert_eq!(untouched.buffer(), &vec![0u8; 9]);
}

#[test]
fn load_image_converts_samples() {
    // luma, alpha pairs
    let samples = vec![0, 255, 64, 241, 200, 255, 255, 240, 128, 0, 191, 250];
    let img = load_image((3, 2), &samples).unwrap();
    assert_eq!(img.size(), Size::new(3, 2));
    assert_eq!(img.buffer(), &vec![0, 1, 3, 4, 4, 2]);
}

#[test]
fn load_image_short_and_long_input() {
    let img = load_image((2, 2), &vec![255, 255]).unwrap();
    assert_eq!(img.buffer(), &vec![3, 0, 0, 0]);
    assert!(load_image((1, 1), &vec![0, 255, 0, 255]).is_err());
}
