use nz_rust::game::{available_maps, game_end_decision, round_continues, GameEndDecision, MapScript};
use nz_rust::input::InputEvent;
use nz_rust::ocr::{box_from_rect, OcrResultItem};
use nz_rust::strategy::{
    execution_order, ActionStep, Building, MovementPhase, Strategy, StrategyMeta,
};
use nz_rust::strategy_executor::{
    execute_step, numbered, plan_stages, Command, Event, Stage, StrategyRunner,
};

fn building(id: &str, key: &str, x: i32, y: i32, wave: u32, is_late: bool) -> Building {
    Building {
        id: id.to_string(),
        name: id.to_string(),
        trap_key: key.to_string(),
        screen_x: x,
        screen_y: y,
        wave,
        is_late,
    }
}

fn strategy(shop: &[&str], buildings: Vec<Building>, phases: Vec<MovementPhase>) -> Strategy {
    Strategy {
        meta: StrategyMeta {
            name: "test".to_string(),
            difficulty: "困难".to_string(),
            screenshot: String::new(),
        },
        shop_order: shop.iter().map(|s| s.to_string()).collect(),
        buildings,
        upgrades: Vec::new(),
        demolishes: Vec::new(),
        movement_phases: phases,
    }
}

fn item(text: &str, x: i32, y: i32, w: i32, h: i32) -> OcrResultItem {
    OcrResultItem { text: text.to_string(), box_points: box_from_rect(x, y, w, h), score_permille: 990 }
}

fn tap(vk: u16) -> Vec<InputEvent> {
    vec![InputEvent::KeyDown(vk), InputEvent::Sleep(50), InputEvent::KeyUp(vk)]
}

#[test]
fn sort_key_doubles_wave_and_adds_lateness() {
    assert_eq!(building("a", "4", 0, 0, 3, false).sort_key(), 6);
    assert_eq!(building("a", "4", 0, 0, 3, true).sort_key(), 7);
    assert_eq!(building("a", "4", 0, 0, u32::MAX, true).sort_key(), 2 * u32::MAX as u64 + 1);
}

#[test]
fn execution_order_groups_waves_and_lateness() {
    let bs = vec![
        building("w2late", "4", 0, 0, 2, true),
        building("w1late", "4", 0, 0, 1, true),
        building("w2early", "4", 0, 0, 2, false),
        building("w1early_a", "4", 0, 0, 1, false),
        building("w1early_b", "4", 0, 0, 1, false),
    ];
    assert_eq!(execution_order(&bs), vec![3, 4, 1, 2, 0]);
    assert_eq!(execution_order(&Vec::new()), Vec::<usize>::new());
}

#[test]
fn trigger_names() {
    let t: String = numbered("before_wave_", 12).into_iter().collect();
    assert_eq!(t, "before_wave_12");
    let t: String = numbered("波次", 0).into_iter().collect();
    assert_eq!(t, "波次0");
}

#[test]
fn movement_action_events() {
    let ev = execute_step(&ActionStep::PressKey { key: "w".to_string(), duration_ms: 800 }).ok().unwrap();
    assert_eq!(ev, vec![InputEvent::KeyDown(0x57), InputEvent::Sleep(800), InputEvent::KeyUp(0x57)]);
    let ev = execute_step(&ActionStep::ClickAt { x: 3, y: 4 }).ok().unwrap();
    assert_eq!(ev, vec![InputEvent::MoveTo { x: 3, y: 4 }, InputEvent::Sleep(100), InputEvent::LeftClick]);
    assert!(execute_step(&ActionStep::TapKey { key: "nope".to_string() }).is_err());
}

#[test]
fn plan_runs_phases_at_triggers() {
    let phases = vec![
        MovementPhase { name: "go".to_string(), trigger: "before_wave_1".to_string(), actions: vec![ActionStep::Click] },
        MovementPhase { name: "safe".to_string(), trigger: "after_placement".to_string(), actions: vec![ActionStep::Sleep { duration_ms: 5 }, ActionStep::Click] },
        MovementPhase { name: "mid".to_string(), trigger: "during_wave_2".to_string(), actions: vec![ActionStep::Click] },
    ];
    let s = strategy(&["A", "B"], vec![building("b1", "5", 1, 1, 1, false), building("b2", "6", 2, 2, 2, true)], phases);
    let stages = plan_stages(&s);
    assert_eq!(
        stages,
        vec![
            Stage::ClearCache,
            Stage::OpenShop,
            Stage::ScanShop,
            Stage::Buy(0),
            Stage::Buy(1),
            Stage::CloseShop,
            Stage::EnterPlacement,
            Stage::Act(0, 0),
            Stage::Place(0),
            Stage::AwaitWave(2),
            Stage::Act(2, 0),
            Stage::Place(1),
            Stage::ExitPlacement,
            Stage::Act(1, 0),
            Stage::Act(1, 1),
            Stage::GameEnd,
        ]
    );
}

fn drive(s: &Strategy, ocr: &dyn Fn(i32, i32, i32, i32) -> Vec<OcrResultItem>, stop_at: usize) -> (Vec<Vec<InputEvent>>, Vec<String>) {
    let mut runner = StrategyRunner::new(s);
    let mut played = Vec::new();
    let mut log = Vec::new();
    let mut event = Event::Proceed;
    for n in 0..200 {
        match runner.step(s, n >= stop_at, event) {
            Command::Play(v) => {
                played.push(v);
                event = Event::Proceed;
            }
            Command::ClearFrameCache => {
                log.push("clear".to_string());
                event = Event::Proceed;
            }
            Command::Recognize { x, y, width, height } => {
                log.push(format!("ocr {} {} {} {}", x, y, width, height));
                event = Event::Recognized(ocr(x, y, width, height));
            }
            Command::WaitForGameEnd => {
                log.push("game end".to_string());
                event = Event::Proceed;
            }
            Command::Stop(v) => {
                played.push(v);
                log.push("stopped".to_string());
                return (played, log);
            }
            Command::Failed(e) => {
                log.push(format!("failed {}", e.key));
                return (played, log);
            }
            Command::Finished => {
                log.push("finished".to_string());
                return (played, log);
            }
        }
    }
    panic!("run did not end");
}

#[test]
fn end_to_end_single_early_building() {
    let s = strategy(&["A"], vec![building("b1", "5", 100, 200, 1, false)], Vec::new());
    let ocr = |_: i32, _: i32, _: i32, _: i32| vec![item("A", 0, 0, 20, 20)];
    let (played, log) = drive(&s, &ocr, usize::MAX);
    let mut open = tap(0x4E);
    open.push(InputEvent::Sleep(1000));
    let mut enter = tap(0x4F);
    enter.push(InputEvent::Sleep(500));
    let mut place = tap(0x35);
    place.extend([
        InputEvent::Sleep(300),
        InputEvent::MoveTo { x: 100, y: 200 },
        InputEvent::Sleep(200),
        InputEvent::LeftClick,
        InputEvent::Sleep(200),
        InputEvent::LeftClick,
        InputEvent::Sleep(300),
    ]);
    assert_eq!(
        played,
        vec![
            open,
            vec![InputEvent::Sleep(1000)],
            vec![
                InputEvent::MoveTo { x: 60, y: 60 },
                InputEvent::Sleep(300),
                InputEvent::LeftClick,
                InputEvent::Sleep(300),
                InputEvent::LeftClick,
                InputEvent::Sleep(300),
                InputEvent::LeftClick,
                InputEvent::Sleep(500),
            ],
            tap(0x4E),
            enter.clone(),
            place,
            tap(0x47),
            enter,
        ]
    );
    assert_eq!(log, vec!["clear", "ocr 0 0 1920 1080", "game end", "finished"]);
}

#[test]
fn late_building_waits_for_marker_and_dismisses_popup() {
    let phases = vec![MovementPhase {
        name: "patrol".to_string(),
        trigger: "wait_wave_1".to_string(),
        actions: vec![ActionStep::TapKey { key: "d".to_string() }],
    }];
    let s = strategy(&[], vec![building("b1", "4", 7, 8, 1, true)], phases);
    let calls = std::cell::Cell::new(0);
    let ocr = |_: i32, _: i32, w: i32, _: i32| {
        if w == 420 {
            calls.set(calls.get() + 1);
            if calls.get() == 1 {
                vec![item("返回游戏", 10, 10, 10, 10)]
            } else {
                vec![item("波次1", 0, 0, 5, 5)]
            }
        } else {
            Vec::new()
        }
    };
    let (played, log) = drive(&s, &ocr, usize::MAX);
    assert_eq!(calls.get(), 2);
    assert!(played.contains(&tap(0x47)));
    assert_eq!(played.iter().filter(|v| **v == tap(0x44)).count(), 2);
    assert!(played.contains(&vec![
        InputEvent::MoveTo { x: 15, y: 15 },
        InputEvent::Sleep(200),
        InputEvent::LeftClick,
        InputEvent::Sleep(200),
        InputEvent::LeftClick,
        InputEvent::Sleep(200),
        InputEvent::LeftClick,
        InputEvent::Sleep(500),
    ]));
    assert_eq!(log.last().unwrap(), "finished");
}

#[test]
fn stop_closes_open_shop_at_once() {
    let s = strategy(&["A", "B"], Vec::new(), Vec::new());
    let ocr = |_: i32, _: i32, _: i32, _: i32| Vec::new();
    let (played, log) = drive(&s, &ocr, 3);
    assert_eq!(played.last().unwrap(), &tap(0x4E));
    assert_eq!(log.last().unwrap(), "stopped");
    let (played, _) = drive(&s, &ocr, 0);
    assert_eq!(played, vec![Vec::<InputEvent>::new()]);
}

#[test]
fn unknown_trap_key_fails_the_run() {
    let s = strategy(&[], vec![building("b1", "??", 1, 1, 1, false)], Vec::new());
    let ocr = |_: i32, _: i32, _: i32, _: i32| Vec::new();
    let (_, log) = drive(&s, &ocr, usize::MAX);
    assert_eq!(log.last().unwrap(), "failed ??");
}

#[test]
fn game_end_decisions() {
    assert!(matches!(game_end_decision(&vec![item("开始游戏", 0, 0, 4, 4)], (50, 50)), GameEndDecision::Ended));
    match game_end_decision(&vec![item("返回游戏", 0, 0, 10, 10)], (50, 50)) {
        GameEndDecision::DismissPopup(v) => assert_eq!(v[0], InputEvent::MoveTo { x: 55, y: 55 }),
        _ => panic!("expected a dismissal"),
    }
    assert!(matches!(game_end_decision(&vec![item("阶段完成", 0, 0, 4, 4)], (0, 0)), GameEndDecision::StageComplete));
    match game_end_decision(&Vec::new(), (0, 0)) {
        GameEndDecision::KeepBusy(v) => assert_eq!(v.len(), 12),
        _ => panic!("expected keep-busy"),
    }
}

#[test]
fn map_list() {
    let maps = available_maps();
    assert_eq!(maps.len(), 2);
    assert_eq!(maps[0].name, "训练基地");
    assert_eq!(maps[1].difficulty, "炼狱");
    assert_eq!(maps[1].script, MapScript::BuildingInferno);
}

#[test]
fn round_cap_and_stop() {
    assert!(round_continues(0, 100, false));
    assert!(!round_continues(100, 100, false));
    assert!(!round_continues(3, 100, true));
}

#[test]
fn every_found_item_is_bought_in_shop_order() {
    let s = strategy(&["B", "missing", "A"], Vec::new(), Vec::new());
    let ocr = |_: i32, _: i32, _: i32, _: i32| vec![item("A", 0, 0, 20, 20), item("B", 100, 0, 20, 20)];
    let (played, _) = drive(&s, &ocr, usize::MAX);
    let moves: Vec<InputEvent> = played
        .iter()
        .flatten()
        .filter(|e| matches!(e, InputEvent::MoveTo { .. }))
        .cloned()
        .collect();
    assert_eq!(moves, vec![InputEvent::MoveTo { x: 160, y: 60 }, InputEvent::MoveTo { x: 60, y: 60 }]);
    let n_taps = played.iter().filter(|v| **v == tap(0x4E)).count();
    assert_eq!(n_taps, 1);
    let opened = played.iter().filter(|v| v.len() == 4 && v[0] == InputEvent::KeyDown(0x4E)).count();
    assert_eq!(opened, 1);
}

#[test]
fn stop_in_placement_closes_it() {
    let s = strategy(&[], vec![building("b1", "5", 1, 1, 1, false), building("b2", "6", 2, 2, 1, false)], Vec::new());
    let ocr = |_: i32, _: i32, _: i32, _: i32| Vec::new();
    let (played, log) = drive(&s, &ocr, 7);
    assert_eq!(played.last().unwrap(), &tap(0x4F));
    assert_eq!(log.last().unwrap(), "stopped");
    assert!(!log.contains(&"game end".to_string()));
}
