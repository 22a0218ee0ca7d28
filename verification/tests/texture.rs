use plinth::texture::bytes_per_pixel;
use plinth::texture::FormattedTextures;
use plinth::texture::image_rows;
use plinth::texture::TextureBook;
use plinth::texture::TextureFormat;

#[test]
fn bytes_per_pixel_of_each_format() {
    assert_eq!(bytes_per_pixel(TextureFormat::Rgba8Unorm), 4);
    assert_eq!(bytes_per_pixel(TextureFormat::Rgba8UnormSrgb), 4);
    assert_eq!(bytes_per_pixel(TextureFormat::R8Unorm), 1);
}

#[test]
fn image_rows_of_pixel_data() {
    assert_eq!(image_rows(4, 1, TextureFormat::Rgba8Unorm), (4, 1));
    assert_eq!(image_rows(1, 1, TextureFormat::R8Unorm), (1, 1));
    assert_eq!(image_rows(96, 3, TextureFormat::Rgba8UnormSrgb), (12, 8));
    assert_eq!(image_rows(0, 5, TextureFormat::R8Unorm), (5, 0));
}

#[test]
fn textures_share_an_atlas_storage() {
    let mut book = TextureBook::new();
    let (white, first) = book.register(1, 1, TextureFormat::Rgba8Unorm).unwrap();
    assert!(first.new_storage);
    assert_eq!(first.storage.format, TextureFormat::Rgba8Unorm);
    assert_eq!((first.atlas_width, first.atlas_height), (4096, 4096));
    assert_eq!(first.rect.x1 - first.rect.x0, 1);
    assert_eq!(first.rect.y1 - first.rect.y0, 1);

    let (other, second) = book.register(16, 8, TextureFormat::Rgba8Unorm).unwrap();
    assert_ne!(white, other);
    assert!(!second.new_storage);
    assert_eq!(second.storage, first.storage);
    assert_eq!(second.rect.x1 - second.rect.x0, 16);
    assert_eq!(second.rect.y1 - second.rect.y0, 8);
    assert_eq!(book.len(), 2);

    // Another format has storages of its own.
    let (_, alpha) = book.register(1, 1, TextureFormat::R8Unorm).unwrap();
    assert!(alpha.new_storage);
    assert_eq!(alpha.storage.format, TextureFormat::R8Unorm);
}

#[test]
fn large_texture_gets_a_storage_of_its_size() {
    let mut book = TextureBook::new();
    let (_, p) = book.register(5000, 10, TextureFormat::Rgba8UnormSrgb).unwrap();
    assert!(p.new_storage);
    assert_eq!((p.atlas_width, p.atlas_height), (5000, 4096));
}

#[test]
fn handles_are_counted_and_last_release_frees() {
    let mut book = TextureBook::new();
    let (id, _) = book.register(2, 2, TextureFormat::Rgba8Unorm).unwrap();
    assert_eq!(book.usage(id).unwrap().refcount, 1);
    let taken = book.get(id).unwrap();
    assert_eq!(taken.refcount, 2);
    assert!(!book.release(id));
    assert_eq!(book.usage(id).unwrap().refcount, 1);
    assert!(book.release(id));
    assert!(book.usage(id).is_none());
    assert!(book.get(id).is_none());
    assert!(!book.release(id));
}

#[test]
fn empty_storages_are_dropped_at_end_of_frame() {
    let mut book = TextureBook::new();
    let (a, placed) = book.register(4, 4, TextureFormat::Rgba8Unorm).unwrap();
    let (b, _) = book.register(4, 4, TextureFormat::R8Unorm).unwrap();
    assert!(book.end_frame().is_empty());
    assert!(book.release(a));
    let dropped = book.end_frame();
    assert_eq!(dropped, vec![placed.storage]);
    // The alpha texture still lives and keeps its storage.
    assert!(book.usage(b).is_some());
    assert!(book.end_frame().is_empty());
    // A new rgba texture gets a new storage with a new id.
    let (_, p) = book.register(4, 4, TextureFormat::Rgba8Unorm).unwrap();
    assert!(p.new_storage);
    assert_ne!(p.storage, placed.storage);
}

#[test]
fn textures_become_ready_when_marked() {
    let mut book = TextureBook::new();
    let (id, _) = book.register(3, 3, TextureFormat::Rgba8UnormSrgb).unwrap();
    assert_eq!(book.is_ready(id), Some(false));
    book.mark_ready(id);
    assert_eq!(book.is_ready(id), Some(true));
    book.mark_ready(id + 100);
    assert_eq!(book.is_ready(id + 100), None);
}

/// Pseudo-random allocations and frees in one atlas; once everything is
/// freed the whole atlas can be taken again.
#[test]
fn emptied_atlas_takes_a_full_size_rectangle() {
    let mut atlas = guillotiere::AtlasAllocator::new(guillotiere::size2(256, 256));
    let mut seed: u32 = 12345;
    let mut next = || {
        seed = seed.wrapping_mul(1103515245).wrapping_add(12345);
        (seed >> 16) % 97
    };
    for round in 0..20 {
        let mut live = Vec::new();
        for _ in 0..40 {
            let w = 1 + next() as i32;
            let h = 1 + next() as i32;
            if let Some(a) = atlas.allocate(guillotiere::size2(w, h)) {
                live.push(a.id);
            }
        }
        // Free in a scrambled order.
        while !live.is_empty() {
            let i = next() as usize % live.len();
            atlas.deallocate(live.swap_remove(i));
        }
        let full = atlas.allocate(guillotiere::size2(256, 256));
        assert!(full.is_some(), "round {round}");
        atlas.deallocate(full.unwrap().id);
    }
}

#[test]
fn registering_always_succeeds_with_fresh_ids() {
    let mut book = TextureBook::new();
    let mut ids = Vec::new();
    for i in 0..50u16 {
        let (id, _) = book.register(1 + i * 37 % 300, 1 + i * 53 % 300, TextureFormat::Rgba8Unorm).unwrap();
        assert!(!ids.contains(&id));
        ids.push(id);
    }
    for id in ids {
        assert!(book.release(id));
    }
    let (_, p) = book.register(4096, 4096, TextureFormat::Rgba8Unorm).unwrap();
    assert!(!p.new_storage);
}

#[test]
fn the_first_storage_with_room_takes_a_texture() {
    let mut textures = FormattedTextures::new(TextureFormat::Rgba8Unorm);
    let full = textures.allocate(4096, 4096).unwrap();
    assert!(full.new_storage);
    // The first storage is full, so a new one is made and then used.
    let small = textures.allocate(8, 8).unwrap();
    assert!(small.new_storage);
    assert_ne!(small.storage.id, full.storage.id);
    let next = textures.allocate(8, 8).unwrap();
    assert!(!next.new_storage);
    assert_eq!(next.storage.id, small.storage.id);
    // Once the first storage has room again, it is tried first.
    textures.release(full.storage.id, full.alloc);
    let again = textures.allocate(8, 8).unwrap();
    assert!(!again.new_storage);
    assert_eq!(again.storage.id, full.storage.id);
}

#[test]
fn a_new_storage_takes_the_slot_most_recently_vacated() {
    let mut textures = FormattedTextures::new(TextureFormat::Rgba8Unorm);
    let full = textures.allocate(4096, 4096).unwrap();
    let small = textures.allocate(8, 8).unwrap();
    assert!(small.new_storage);
    textures.release(full.storage.id, full.alloc);
    assert_eq!(textures.end_frame(), vec![full.storage.id]);
    // The new storage takes the first slot, so it is tried before the
    // storage made earlier.
    let tall = textures.allocate(4096, 4090).unwrap();
    assert!(tall.new_storage);
    assert_ne!(tall.storage.id, full.storage.id);
    assert_ne!(tall.storage.id, small.storage.id);
    let tiny = textures.allocate(4, 4).unwrap();
    assert!(!tiny.new_storage);
    assert_eq!(tiny.storage.id, tall.storage.id);
}

#[test]
fn a_released_id_does_not_name_a_later_texture() {
    let mut book = TextureBook::new();
    let (first, _) = book.register(3, 3, TextureFormat::R8Unorm).unwrap();
    assert!(book.release(first));
    let (second, _) = book.register(3, 3, TextureFormat::R8Unorm).unwrap();
    assert_ne!(first, second);
    assert!(book.usage(first).is_none());
    assert!(book.is_ready(first).is_none());
    assert_eq!(book.usage(second).unwrap().refcount, 1);
    assert_eq!(book.len(), 1);
}
