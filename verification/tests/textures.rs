use muxy_app::textures::{placement_order, plan_textures, GraphicImage, Placement, Texture};

fn image(id: u32, generation: u64, fill: u8) -> GraphicImage {
    GraphicImage {
        id,
        generation,
        width: 2,
        height: 1,
        rgba: vec![fill; 8],
    }
}

#[test]
fn crops_use_full_textures_and_reused_ids_cannot_show_stale_pixels() {
    let first = vec![image(1, 1, 255)];
    assert_eq!(plan_textures(&Vec::new(), &first), (Vec::new(), vec![0]));
    assert_eq!(plan_textures(&first, &first), (Vec::new(), Vec::new()));
    let replaced = vec![image(1, 1, 0)];
    assert_eq!(
        plan_textures(&first, &replaced),
        (vec![Texture::Cached(0)], vec![0])
    );
    assert_eq!(
        plan_textures(&replaced, &Vec::new()),
        (vec![Texture::Cached(0)], Vec::new())
    );
}

#[test]
fn textures_of_unused_images_retire_in_cache_order() {
    let cached = vec![image(1, 1, 1), image(2, 1, 2), image(3, 1, 3)];
    let used = vec![image(2, 1, 2), image(4, 1, 4), image(4, 1, 5)];
    assert_eq!(
        plan_textures(&cached, &used),
        (
            vec![Texture::Cached(0), Texture::Cached(2), Texture::Built(1)],
            vec![1, 2]
        )
    );
}

#[test]
fn placements_draw_by_depth_and_keep_their_order_at_equal_depth() {
    let images = vec![image(7, 1, 0), image(3, 1, 0), image(7, 2, 0)];
    let placements = vec![
        Placement { image: 7, z: 5 },
        Placement { image: 9, z: -3 },
        Placement { image: 3, z: -1 },
        Placement { image: 7, z: -1 },
        Placement { image: 3, z: 5 },
    ];
    assert_eq!(
        placement_order(&images, &placements),
        vec![(2, 1), (3, 0), (0, 0), (4, 1)]
    );
    assert_eq!(placement_order(&Vec::new(), &placements), Vec::new());
}
