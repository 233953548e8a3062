use endless_ui::atlas::{extract_atlas_cell, extract_quad_tile, premultiplied, AtlasImage, SpriteImage};
use endless_ui::hud::{
    jukebox_speed_percents, llm_indicator, LlmStatus, resource_icon_parts, resource_icon_spec, top_bar_resource_display_order,
    top_bar_resource_widget_order, HudResourceIcon, ResourceIconAtlas, ResourceIconPart,
    ResourceIconSpec,
};

#[test]
fn resource_icon_specs_use_world_atlas_cells() {
    assert_eq!(
        resource_icon_spec(HudResourceIcon::Food),
        ResourceIconSpec {
            atlas: ResourceIconAtlas::World,
            col: 24,
            row: 9,
        }
    );
    assert_eq!(
        resource_icon_spec(HudResourceIcon::Gold),
        ResourceIconSpec {
            atlas: ResourceIconAtlas::World,
            col: 41,
            row: 11,
        }
    );
    assert_eq!(
        resource_icon_spec(HudResourceIcon::Wood),
        ResourceIconSpec {
            atlas: ResourceIconAtlas::World,
            col: 13,
            row: 9,
        }
    );
    assert_eq!(
        resource_icon_spec(HudResourceIcon::Stone),
        ResourceIconSpec {
            atlas: ResourceIconAtlas::World,
            col: 7,
            row: 15,
        }
    );
}

#[test]
fn resource_icon_parts_flip_for_rtl_parents() {
    assert_eq!(
        resource_icon_parts(false),
        [ResourceIconPart::Icon, ResourceIconPart::Value]
    );
    assert_eq!(
        resource_icon_parts(true),
        [ResourceIconPart::Value, ResourceIconPart::Icon]
    );
}

#[test]
fn top_bar_resource_order_stays_wood_stone_food_gold_on_screen() {
    assert_eq!(
        top_bar_resource_display_order(),
        [
            HudResourceIcon::Wood,
            HudResourceIcon::Stone,
            HudResourceIcon::Food,
            HudResourceIcon::Gold,
        ]
    );
    assert_eq!(
        top_bar_resource_widget_order(false),
        [
            HudResourceIcon::Wood,
            HudResourceIcon::Stone,
            HudResourceIcon::Food,
            HudResourceIcon::Gold,
        ]
    );
    assert_eq!(
        top_bar_resource_widget_order(true),
        [
            HudResourceIcon::Gold,
            HudResourceIcon::Food,
            HudResourceIcon::Stone,
            HudResourceIcon::Wood,
        ]
    );
}

#[test]
fn extract_atlas_cell_preserves_alpha() {
    let cell_size = 17u32;
    let mut data = vec![0u8; (cell_size * cell_size * 4) as usize];
    data[0..4].copy_from_slice(&[10, 20, 30, 0]);
    data[4..8].copy_from_slice(&[40, 50, 60, 128]);
    let atlas = AtlasImage {
        width: cell_size,
        height: cell_size,
        data: Some(data),
    };

    let icon = extract_atlas_cell(&atlas, 0, 0, cell_size).expect("cell should extract");
    assert_eq!(icon.size, [16, 16]);
    assert_eq!(icon.rgba[3], 0);
    assert_eq!(&icon.rgba[4..8], &[40, 50, 60, 128]);
}

#[test]
fn extract_atlas_cell_without_data_is_none() {
    let atlas = AtlasImage {
        width: 17,
        height: 17,
        data: None,
    };
    assert!(extract_atlas_cell(&atlas, 0, 0, 17).is_none());
}

#[test]
fn extract_atlas_cell_reads_the_requested_cell_and_skips_the_gutter() {
    // 2x2 cells of 3 pixels (2-pixel sprites plus a one-pixel gutter).
    let width = 6u32;
    let mut data = vec![0u8; (width * 6 * 4) as usize];
    for y in 0..6u32 {
        for x in 0..6u32 {
            let i = ((y * width + x) * 4) as usize;
            data[i] = x as u8;
            data[i + 1] = y as u8;
            data[i + 2] = 7;
            data[i + 3] = 255;
        }
    }
    let atlas = AtlasImage {
        width,
        height: 6,
        data: Some(data),
    };
    let icon = extract_atlas_cell(&atlas, 1, 1, 3).unwrap();
    assert_eq!(icon.size, [2, 2]);
    assert_eq!(icon.rgba.len(), 16);
    // pixel (0,0) of the sprite is atlas pixel (3,3); pixel (1,1) is (4,4).
    assert_eq!(&icon.rgba[0..4], &[3, 3, 7, 255]);
    assert_eq!(&icon.rgba[4..8], &[4, 3, 7, 255]);
    assert_eq!(&icon.rgba[8..12], &[3, 4, 7, 255]);
    assert_eq!(&icon.rgba[12..16], &[4, 4, 7, 255]);
}

#[test]
fn extract_atlas_cell_past_the_data_is_transparent() {
    let atlas = AtlasImage {
        width: 4,
        height: 1,
        data: Some(vec![9u8; 16]),
    };
    let icon = extract_atlas_cell(&atlas, 0, 2, 2).unwrap();
    assert_eq!(icon.size, [1, 1]);
    assert_eq!(icon.rgba, vec![0, 0, 0, 0]);
}

#[test]
fn extract_quad_tile_places_the_four_cells() {
    // Atlas of 4x1 cells of 17 pixels; cell n is filled with n+1.
    let width = 17 * 4;
    let height = 17;
    let mut data = vec![0u8; (width * height * 4) as usize];
    for y in 0..height {
        for x in 0..width {
            let i = ((y * width + x) * 4) as usize;
            let v = (x / 17 + 1) as u8;
            data[i..i + 4].copy_from_slice(&[v, v, v, v]);
        }
    }
    let atlas = AtlasImage {
        width,
        height,
        data: Some(data),
    };
    let tile = extract_quad_tile(&atlas, [(0, 0), (1, 0), (2, 0), (3, 0)]);
    assert_eq!(tile.size, [32, 32]);
    assert_eq!(tile.rgba.len(), 32 * 32 * 4);
    let px = |x: usize, y: usize| tile.rgba[(y * 32 + x) * 4];
    assert_eq!(px(0, 0), 1);
    assert_eq!(px(15, 15), 1);
    assert_eq!(px(16, 0), 2);
    assert_eq!(px(31, 15), 2);
    assert_eq!(px(0, 16), 3);
    assert_eq!(px(15, 31), 3);
    assert_eq!(px(16, 16), 4);
    assert_eq!(px(31, 31), 4);
}

#[test]
fn extract_quad_tile_rows_outside_the_atlas_stay_zero() {
    let atlas = AtlasImage {
        width: 17,
        height: 17,
        data: Some(vec![5u8; 17 * 17 * 4]),
    };
    let tile = extract_quad_tile(&atlas, [(0, 0), (0, 0), (0, 1), (0, 1)]);
    assert_eq!(tile.rgba[0], 5);
    assert_eq!(tile.rgba[(16 * 32) * 4], 0);
}

#[test]
fn jukebox_speeds_step_by_ten_then_fifty() {
    assert_eq!(
        jukebox_speed_percents(),
        vec![10, 20, 30, 40, 50, 60, 70, 80, 90, 100, 150, 200, 250, 300, 350, 400, 450, 500]
    );
}

#[test]
fn model_status_light() {
    assert_eq!(llm_indicator(LlmStatus::Idle), ((80, 80, 80), "LLM idle"));
    assert_eq!(llm_indicator(LlmStatus::Sending).1, "LLM sending state");
    assert_eq!(llm_indicator(LlmStatus::Thinking).0, (255, 200, 50));
    assert_eq!(llm_indicator(LlmStatus::Done(3)), ((80, 220, 120), "LLM executed actions"));
    assert_eq!(llm_indicator(LlmStatus::Done(0)).1, "LLM no actions");
}

#[test]
fn premultiplied_pixels_scale_colour_by_alpha() {
    let img = SpriteImage {
        size: [2, 2],
        rgba: vec![10, 20, 30, 0, 40, 50, 60, 128, 1, 2, 3, 255, 255, 255, 255, 1],
    };
    assert_eq!(
        premultiplied(&img),
        vec![0, 0, 0, 0, 20, 25, 30, 128, 1, 2, 3, 255, 1, 1, 1, 1]
    );
}
