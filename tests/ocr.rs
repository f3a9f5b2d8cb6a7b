use nz_rust::game::{clear_cache, to_wide_string};
use nz_rust::ocr::{
    box_from_rect, cached_recognition, clear_frame_cache, find_text_contains, fits_screen,
    get_cached_result, record_recognition, results_from_blocks, RecognizedBlock, should_skip_frame, to_screen, FrameCache,
    OcrResultItem,
};

fn item(text: &str, x: i32, y: i32) -> OcrResultItem {
    OcrResultItem {
        text: text.to_string(),
        box_points: box_from_rect(x, y, 20, 10),
        score_permille: 800,
    }
}

#[test]
fn center_is_midpoint_of_diagonal() {
    assert_eq!(item("x", 10, 20).center(), (20, 25));
    let neg = OcrResultItem {
        text: String::new(),
        box_points: [[-5, -5], [0, -5], [0, 0], [-5, 0]],
        score_permille: 0,
    };
    assert_eq!(neg.center(), (-2, -2));
}

#[test]
fn contains_finds_first_match() {
    let results = vec![item("商店 防空导弹", 0, 0), item("破坏者", 50, 50), item("防空导弹 II", 90, 90)];
    let found = find_text_contains(&results, "防空导弹").unwrap();
    assert_eq!(found.text, "商店 防空导弹");
    assert_eq!(find_text_contains(&results, "坏者").unwrap().center(), (60, 55));
    assert!(find_text_contains(&results, "修理站").is_none());
    assert_eq!(find_text_contains(&results, "").unwrap().text, "商店 防空导弹");
    assert!(find_text_contains(&Vec::new(), "").is_none());
}

#[test]
fn frame_cache_reuses_same_hash_only() {
    let mut cache = FrameCache::new();
    let results = vec![item("波次3", 1, 2), item("金币", 3, 4)];
    assert!(cached_recognition(&cache, true, 42).is_none());
    record_recognition(&mut cache, true, 42, &results);
    assert!(should_skip_frame(&cache, 42));
    let hit = cached_recognition(&cache, true, 42).unwrap();
    assert_eq!(hit.len(), 2);
    assert_eq!(hit[0].text, "波次3");
    assert_eq!(hit[1].box_points, results[1].box_points);
    assert!(cached_recognition(&cache, true, 43).is_none());
    assert!(cached_recognition(&cache, false, 42).is_none());
    assert_eq!(get_cached_result(&cache).unwrap().len(), 2);
    clear_frame_cache(&mut cache);
    assert!(!should_skip_frame(&cache, 42));
    record_recognition(&mut cache, false, 7, &results);
    assert!(cached_recognition(&cache, true, 7).is_none());
    record_recognition(&mut cache, true, 7, &results);
    clear_cache(&mut cache);
    assert!(get_cached_result(&cache).is_none());
}

#[test]
fn results_map_back_to_screen() {
    let results = vec![item("7", 9, 30)];
    assert!(fits_screen(&results, 3, 100, 200));
    let mapped = to_screen(&results, 3, 100, 200);
    assert_eq!(mapped[0].box_points, [[103, 210], [109, 210], [109, 213], [103, 213]]);
    assert_eq!(mapped[0].text, "7");
    let plain = to_screen(&results, 1, -9, 0);
    assert_eq!(plain[0].box_points[0], [0, 30]);
    let far = vec![item("x", i32::MAX - 20, 0)];
    assert!(!fits_screen(&far, 1, 10, 0));
}

#[test]
fn wide_string_is_zero_terminated_utf16() {
    assert_eq!(to_wide_string("ab"), vec![0x61, 0x62, 0]);
    assert_eq!(to_wide_string("逆战"), vec![0x9006, 0x6218, 0]);
    assert_eq!(to_wide_string("😀"), vec![0xD83D, 0xDE00, 0]);
}

#[test]
fn blocks_become_four_corner_records() {
    let blocks = vec![RecognizedBlock { text: "金币".to_string(), left: 5, top: 7, width: 10, height: 3, score_permille: 950 }];
    let rs = results_from_blocks(&blocks).unwrap();
    assert_eq!(rs.len(), 1);
    assert_eq!(rs[0].text, "金币");
    assert_eq!(rs[0].score_permille, 950);
    assert_eq!(rs[0].box_points, [[5, 7], [15, 7], [15, 10], [5, 10]]);
    let wide = vec![RecognizedBlock { text: String::new(), left: i32::MAX, top: 0, width: 1, height: 0, score_permille: 0 }];
    assert!(results_from_blocks(&wide).is_none());
}
