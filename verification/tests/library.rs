use good_bug::drive_commands::{DriveCommand, DriveCommands};
use good_bug::edges::edge_endpoints;
use good_bug::landmark_classifier::{ClassCounts, Detection, DetectionIds, LandmarkClassifier};
use good_bug::map_mirror::MapMirror;
use good_bug::map_updater::{MapUpdate, MapUpdater};
use good_bug::msg::MsgKind;
use good_bug::navigation::{wheel_command, Heading, WheelCommand};
use good_bug::openvslam::{openvslam_args, slam_request, RestartLoop, BusCommand, PreviewType, SlamRequest};
use good_bug::paths::{config_root, openvslam_path, path_in_config_folder};
use good_bug::robot_params_echo::RobotParamsEcho;
use good_bug::saved_images::{greatest_image_index, image_number_of, next_image_index};
use good_bug::settings::{find_map, SavedMap, Slam};
use good_bug::signal_map::SignalMap;
use good_bug::system_info::SystemInfo;
use good_bug::teleop::{ControlMode, JoyButtons};
use good_bug::types::{Edge, InJoyButton, NavigationMode, RobotParams, TrackingState};
use good_bug::ui_state::{add_robot_address, ensure_robot_address};
use good_bug::utils::LastValue;
use std::collections::HashMap;

fn s(x: &str) -> String {
    x.to_string()
}

fn map(name: &str, db: &str, waypoints: Vec<u32>) -> SavedMap<u32> {
    SavedMap { name: s(name), db_path: s(db), waypoints }
}

fn slam(maps: Option<Vec<SavedMap<u32>>>, current: Option<&str>) -> Slam<u32> {
    Slam {
        openvslam_config: s("cfg.yaml"),
        vocab: s("orb_vocab.fbow"),
        gstreamer_pipeline: None,
        video: None,
        mask: None,
        current_map_name: current.map(s),
        maps,
        enable_auto_slace_estimation: false,
    }
}

#[test]
fn last_value_keeps_only_the_latest() {
    let mut slot = LastValue::new();
    assert_eq!(slot.pop(), None);
    slot.set(1);
    slot.set(2);
    assert_eq!(slot.pop(), Some(2));
    assert_eq!(slot.pop(), None);
    slot.set(3);
    assert_eq!(slot.pop(), Some(3));
}

#[test]
fn current_map_is_the_first_of_its_name() {
    let s0 = slam(Some(vec![map("a", "a1", vec![]), map("b", "b1", vec![1]), map("b", "b2", vec![2])]), Some("b"));
    assert_eq!(s0.current_map_index(), Some(1));
    assert_eq!(s0.get_current_map().unwrap().db_path, "b1");
    let s1 = slam(Some(vec![map("a", "a1", vec![])]), Some("x"));
    assert!(s1.get_current_map().is_none());
    let s2 = slam(None, Some("a"));
    assert!(s2.get_current_map().is_none());
    let s3 = slam(Some(vec![map("a", "a1", vec![])]), None);
    assert!(s3.get_current_map().is_none());
}

#[test]
fn find_map_edge_cases() {
    assert_eq!(find_map::<u32>(&vec![], &s("a")), None);
    assert_eq!(find_map(&vec![map("a", "1", vec![]), map("a", "2", vec![])], &s("a")), Some(0));
}

#[test]
fn add_map_updates_every_map_of_that_name() {
    let mut st = slam(Some(vec![map("a", "old", vec![7]), map("b", "b", vec![]), map("a", "old2", vec![])]), None);
    st.add_map(s("a"), s("new"));
    let maps = st.maps.as_ref().unwrap();
    assert_eq!(maps.len(), 3);
    assert_eq!(maps[0].db_path, "new");
    assert_eq!(maps[0].waypoints, vec![7]);
    assert_eq!(maps[1].db_path, "b");
    assert_eq!(maps[2].db_path, "new");
}

#[test]
fn add_map_appends_an_unknown_map() {
    let mut st = slam(None, None);
    st.add_map(s("garden"), s("garden.db"));
    let maps = st.maps.as_ref().unwrap();
    assert_eq!(maps.len(), 1);
    assert_eq!(maps[0].name, "garden");
    assert_eq!(maps[0].db_path, "garden.db");
    assert!(maps[0].waypoints.is_empty());
    st.add_map(s("garden"), s("garden2.db"));
    assert_eq!(st.maps.as_ref().unwrap().len(), 1);
}

#[test]
fn added_map_can_be_selected() {
    let mut st = slam(Some(vec![map("a", "a", vec![])]), None);
    st.add_map(s("b"), s("b.db"));
    st.set_current_map_name(Some(s("b")));
    assert_eq!(st.get_current_map().unwrap().db_path, "b.db");
    st.set_current_map_name(None);
    assert!(st.get_current_map().is_none());
}

#[test]
fn waypoints_go_to_the_current_map() {
    let mut st = slam(Some(vec![map("a", "a", vec![1]), map("b", "b", vec![2])]), Some("b"));
    assert!(st.set_waypoints(vec![5, 6]));
    let maps = st.maps.as_ref().unwrap();
    assert_eq!(maps[0].waypoints, vec![1]);
    assert_eq!(maps[1].waypoints, vec![5, 6]);
    let mut none = slam(Some(vec![map("a", "a", vec![1])]), Some("z"));
    assert!(!none.set_waypoints(vec![9]));
    assert_eq!(none.maps.as_ref().unwrap()[0].waypoints, vec![1]);
}

#[test]
fn map_updater_reports_when_to_save() {
    let mut st = slam(Some(vec![map("a", "a", vec![])]), None);
    assert!(!MapUpdater::apply(&mut st, MapUpdate::Waypoints(vec![1])));
    assert!(MapUpdater::apply(&mut st, MapUpdate::SelectMap(Some(s("a")))));
    assert!(MapUpdater::apply(&mut st, MapUpdate::Waypoints(vec![3])));
    assert_eq!(st.get_current_map().unwrap().waypoints, vec![3]);
}

#[test]
fn empty_map_name_clears_the_selection() {
    assert!(matches!(MapUpdate::<u32>::selection(s("")), MapUpdate::SelectMap(None)));
    match MapUpdate::<u32>::selection(s("m")) {
        MapUpdate::SelectMap(Some(n)) => assert_eq!(n, "m"),
        _ => panic!("expected a selection"),
    }
}

#[test]
fn robot_params_copy_the_catalogue() {
    let p = RobotParams::from_slam(slam(Some(vec![map("a", "a", vec![1])]), Some("a")));
    assert_eq!(p.maps.len(), 1);
    assert_eq!(p.current_map_name, Some(s("a")));
    let q = RobotParams::from_slam(slam(None, None));
    assert!(q.maps.is_empty());
    assert!(q.current_map_name.is_none());
    assert!(RobotParamsEcho::answers(MsgKind::RequestRobotParams));
    assert!(!RobotParamsEcho::answers(MsgKind::RobotParams));
}

#[test]
fn mirrors_commands() {
    let commands = [
        MsgKind::Teleop,
        MsgKind::SetNavigationMode,
        MsgKind::SaveMapDB,
        MsgKind::NavTarget,
        MsgKind::SelectMap,
        MsgKind::Waypoints,
        MsgKind::EnableAutoNav,
        MsgKind::TerminateSlam,
        MsgKind::UseRawPreview,
        MsgKind::RequestRobotParams,
    ];
    for k in commands {
        assert!(k.is_mirrors_command());
    }
    for k in [MsgKind::TrackingState, MsgKind::Landmarks, MsgKind::MapScale, MsgKind::RobotParams, MsgKind::RequestToRobot, MsgKind::SystemStatus] {
        assert!(!k.is_mirrors_command());
    }
}

#[test]
fn cpu_component_is_found_by_label() {
    assert_eq!(SystemInfo::cpu_component(&vec![s("GPU"), s("CPU"), s("CPU")]), Some(1));
    assert_eq!(SystemInfo::cpu_component(&vec![s("cpu"), s("GPU")]), None);
    assert_eq!(SystemInfo::cpu_component(&vec![]), None);
}

#[test]
fn votes_are_counted_per_landmark_and_class() {
    let mut counts: ClassCounts = HashMap::new();
    let dets = vec![
        Detection { class: 1, landmark_ids: vec![10, 11, 10] },
        Detection { class: 2, landmark_ids: vec![10] },
    ];
    LandmarkClassifier::record_detections(&mut counts, &dets);
    assert_eq!(counts[&10][&1], 2);
    assert_eq!(counts[&10][&2], 1);
    assert_eq!(counts[&11][&1], 1);
    assert_eq!(counts.len(), 2);
    LandmarkClassifier::record_detections(&mut counts, &vec![Detection { class: 2, landmark_ids: vec![10, 10] }]);
    assert_eq!(counts[&10][&2], 3);
    assert_eq!(LandmarkClassifier::top_class(&counts[&10]), Some((2, 3)));
    assert_eq!(LandmarkClassifier::top_class(&HashMap::new()), None);
}

#[test]
fn edges_resolve_to_known_keyframes() {
    let edges = vec![Edge { id0: 1, id1: 2 }, Edge { id0: 2, id1: 9 }, Edge { id0: 3, id1: 1 }];
    let ids = vec![1, 2, 3, 1];
    assert_eq!(edge_endpoints(&edges, &ids), vec![(3, 1), (2, 3)]);
    assert_eq!(edge_endpoints(&edges, &vec![]), vec![]);
}

#[test]
fn signal_map_hands_out_fresh_ids() {
    let mut m: SignalMap<&str> = SignalMap::new();
    assert_eq!(m.next_id(), 1);
    let a = m.register("a");
    let b = m.register("b");
    assert_eq!((a, b), (2, 3));
    assert_eq!(m.sender(a), Some(&"a"));
    assert_eq!(m.remove(a), Some("a"));
    assert_eq!(m.sender(a), None);
    assert_eq!(m.remove(a), None);
    assert_eq!(m.sender(b), Some(&"b"));
}

#[test]
fn robot_addresses_newest_first_without_repeats() {
    let mut v = vec![s("http://a"), s("http://b"), s("http://c")];
    add_robot_address(&mut v, s("http://b"));
    assert_eq!(v, vec![s("http://b"), s("http://a"), s("http://c")]);
    add_robot_address(&mut v, s("http://d"));
    assert_eq!(v, vec![s("http://d"), s("http://b"), s("http://a"), s("http://c")]);
    let mut dup = vec![s("x"), s("x")];
    add_robot_address(&mut dup, s("y"));
    assert_eq!(dup, vec![s("y"), s("x")]);
}

#[test]
fn connection_history_is_never_empty() {
    let mut v: Vec<String> = vec![];
    ensure_robot_address(&mut v);
    assert_eq!(v, vec![s("http://127.0.0.1:50051")]);
    let mut w = vec![s("http://x")];
    ensure_robot_address(&mut w);
    assert_eq!(w, vec![s("http://x")]);
}

#[test]
fn image_numbers_come_from_file_names() {
    assert_eq!(image_number_of(&s("image_12.jpg")), Some(Some(12)));
    assert_eq!(image_number_of(&s("shot_7.jpeg")), Some(Some(7)));
    assert_eq!(image_number_of(&s("notes.txt")), None);
    assert_eq!(image_number_of(&s("image_99999999999.jpg")), Some(None));
    let names = vec![s("image_3.jpg"), s("a.png"), s("image_10.jpeg"), s("image_2.jpg")];
    assert_eq!(greatest_image_index(&names), 10);
    assert_eq!(next_image_index(&names), Some(11));
    assert_eq!(next_image_index(&vec![]), Some(1));
    assert_eq!(next_image_index(&vec![s("image_4294967295.jpg")]), None);
    assert_eq!(next_image_index(&vec![s("image_4294967296.jpg")]), None);
}

#[test]
fn config_paths() {
    assert_eq!(config_root(None), "./config");
    assert_eq!(config_root(Some(s("/etc/bug"))), "/etc/bug");
    assert_eq!(path_in_config_folder(None, "default.toml"), "./config/default.toml");
    assert_eq!(path_in_config_folder(Some(s("/cfg")), "local.toml"), "/cfg/local.toml");
    assert_eq!(path_in_config_folder(None, "/abs/x.toml"), "/abs/x.toml");
    assert_eq!(openvslam_path("openvslam/build/run_api"), "./openvslam-wrap/openvslam/build/run_api");
}

#[test]
fn openvslam_command_line() {
    let mut st = slam(None, None);
    assert_eq!(openvslam_args(&st, &None), vec![s("-c"), s("cfg.yaml"), s("-v"), s("orb_vocab.fbow")]);
    st.video = Some(s("v.mp4"));
    st.gstreamer_pipeline = Some(s("pipe"));
    assert_eq!(
        openvslam_args(&st, &Some(s("m.db"))),
        vec![s("-c"), s("cfg.yaml"), s("-v"), s("orb_vocab.fbow"), s("-m"), s("v.mp4"), s("--map"), s("m.db"), s("--gstreamer_pipeline"), s("pipe")]
    );
}

#[test]
fn tracking_state_names() {
    assert_eq!(TrackingState::from_name("Tracking"), Some(TrackingState::Tracking));
    assert_eq!(TrackingState::from_name("Lost"), Some(TrackingState::Lost));
    assert_eq!(TrackingState::from_name("NotInitialized"), Some(TrackingState::NotInitialized));
    assert_eq!(TrackingState::from_name("Initializing"), Some(TrackingState::Initializing));
    assert_eq!(TrackingState::from_name("tracking"), None);
}

#[test]
fn navigation_modes_by_index() {
    assert_eq!(NavigationMode::from_index(0), NavigationMode::Teleop);
    assert_eq!(NavigationMode::from_index(1), NavigationMode::Goal);
    assert_eq!(NavigationMode::from_index(2), NavigationMode::Waypoints);
}

#[test]
fn joypad_buttons() {
    let mut b = JoyButtons::new();
    b.on_button(InJoyButton { button_index: 12, pressed: true });
    assert_eq!(b.control_mode, ControlMode::Keyboard);
    assert!(b.key_up);
    b.on_button(InJoyButton { button_index: 4, pressed: true });
    assert_eq!(b.control_mode, ControlMode::Joystick);
    assert!(b.left_reversed);
    assert!(b.key_up);
    b.on_button(InJoyButton { button_index: 1, pressed: true });
    assert!(b.weeder_on);
    b.on_button(InJoyButton { button_index: 15, pressed: true });
    assert!(b.key_right);
    b.on_button(InJoyButton { button_index: 14, pressed: false });
    assert!(!b.key_left);
    b.on_motion();
    assert_eq!(b.control_mode, ControlMode::Joystick);
}

#[test]
fn map_mirror_keeps_its_first_keyframe_as_anchor() {
    let mut m: MapMirror<u8, u8> = MapMirror::new();
    assert!(m.marked().is_none());
    m.update_keyframe(5, None);
    assert!(m.marked_keyframe.is_none());
    m.update_keyframe(7, Some(1));
    m.update_keyframe(8, Some(2));
    assert_eq!(m.marked_keyframe, Some(7));
    assert_eq!(m.marked(), Some(&1));
    m.update_keyframe(7, None);
    assert_eq!(m.marked_keyframe, Some(7));
    assert_eq!(m.marked(), None);
    m.update_landmark(1, Some(9));
    m.update_landmark(1, None);
    assert!(m.landmarks.is_empty());
    m.on_message("TRACKING_STATE", "Tracking");
    assert_eq!(m.tracker_state, TrackingState::Tracking);
    m.on_message("TRACKING_STATE", "bogus");
    assert_eq!(m.tracker_state, TrackingState::Tracking);
    m.on_message("INFO", "Lost");
    assert_eq!(m.tracker_state, TrackingState::Tracking);
}

#[test]
fn bus_commands_become_slam_requests() {
    assert!(matches!(slam_request(BusCommand::TerminateSlam), Some(SlamRequest::Terminate)));
    match slam_request(BusCommand::SaveMapDB(s("maps/garden.db"))) {
        Some(SlamRequest::SaveMapDb { path }) => assert_eq!(path, "maps/garden.db"),
        other => panic!("unexpected request {:?}", other),
    }
    assert!(matches!(
        slam_request(BusCommand::UseRawPreview(true)),
        Some(SlamRequest::SetPreviewType(PreviewType::Raw))
    ));
    assert!(matches!(
        slam_request(BusCommand::UseRawPreview(false)),
        Some(SlamRequest::SetPreviewType(PreviewType::SlamInfo))
    ));
    assert!(slam_request(BusCommand::Other).is_none());
}

#[test]
fn openvslam_restarts_only_after_a_clean_exit() {
    let mut l = RestartLoop::new();
    assert!(l.alive);
    assert!(l.on_exit(true));
    assert!(l.on_exit(true));
    assert!(!l.on_exit(false));
    // the first failure ends the loop for good
    assert!(!l.on_exit(true));
    assert!(!l.alive);
}

#[test]
fn wheel_commands_by_mode() {
    assert_eq!(wheel_command(NavigationMode::Teleop, true, false, TrackingState::Lost, false, false, Heading::Ahead), WheelCommand::Teleop);
    assert_eq!(wheel_command(NavigationMode::Teleop, false, true, TrackingState::Tracking, true, false, Heading::Ahead), WheelCommand::Stop);
    assert_eq!(wheel_command(NavigationMode::Waypoints, true, true, TrackingState::Tracking, true, false, Heading::Left), WheelCommand::Stop);
    assert_eq!(wheel_command(NavigationMode::Goal, true, true, TrackingState::Tracking, true, false, Heading::Ahead), WheelCommand::Travel);
    assert_eq!(wheel_command(NavigationMode::Goal, true, true, TrackingState::Tracking, true, false, Heading::Left), WheelCommand::TurnLeft);
    assert_eq!(wheel_command(NavigationMode::Goal, true, true, TrackingState::Tracking, true, false, Heading::Right), WheelCommand::TurnRight);
    // stale pose, lost tracking, no target, goal reached
    assert_eq!(wheel_command(NavigationMode::Goal, true, false, TrackingState::Tracking, true, false, Heading::Left), WheelCommand::Stop);
    assert_eq!(wheel_command(NavigationMode::Goal, true, true, TrackingState::Lost, true, false, Heading::Left), WheelCommand::Stop);
    assert_eq!(wheel_command(NavigationMode::Goal, true, true, TrackingState::Initializing, true, false, Heading::Ahead), WheelCommand::Stop);
    assert_eq!(wheel_command(NavigationMode::Goal, true, true, TrackingState::Tracking, false, false, Heading::Ahead), WheelCommand::Stop);
    assert_eq!(wheel_command(NavigationMode::Goal, true, true, TrackingState::Tracking, true, true, Heading::Right), WheelCommand::Stop);
}

#[test]
fn arrow_keys_add_up_and_saturate() {
    let mut b = JoyButtons::new();
    assert_eq!(b.keyboard_direction(), (0, 0));
    b.key_up = true;
    assert_eq!(b.keyboard_direction(), (1, 1));
    b.key_left = true;
    assert_eq!(b.keyboard_direction(), (0, 1));
    b.key_up = false;
    assert_eq!(b.keyboard_direction(), (-1, 1));
    b.key_left = false;
    b.key_right = true;
    assert_eq!(b.keyboard_direction(), (1, -1));
    b.key_up = true;
    assert_eq!(b.keyboard_direction(), (1, 0));
    b.key_down = true;
    b.key_left = true;
    assert_eq!(b.keyboard_direction(), (0, 0));
    let mut d = JoyButtons::new();
    d.key_down = true;
    d.key_left = true;
    assert_eq!(d.keyboard_direction(), (-1, 0));
}

#[test]
fn a_step_is_sent_once_before_the_speed() {
    let mut c: DriveCommands<(i32, i32, i32), (i32, i32)> = DriveCommands::new((0, 0, 0));
    assert!(matches!(c.next_command(), Some(DriveCommand::Step((0, 0, 0)))));
    assert!(c.next_command().is_none());
    c.set_speed((3, 4));
    assert!(matches!(c.next_command(), Some(DriveCommand::Speed((3, 4)))));
    assert!(matches!(c.next_command(), Some(DriveCommand::Speed((3, 4)))));
    c.set_step((1, -1, 12));
    assert!(matches!(c.next_command(), Some(DriveCommand::Step((1, -1, 12)))));
    assert!(c.next_command().is_none());
    c.set_speed((5, 5));
    c.set_target();
    assert!(c.next_command().is_none());
    c.set_step((2, 2, 1));
    c.set_step((7, 7, 1));
    assert!(matches!(c.next_command(), Some(DriveCommand::Step((7, 7, 1)))));
}

#[test]
fn joined_paths_follow_the_unix_rule() {
    assert_eq!(path_in_config_folder(Some(s("/cfg/")), "x.toml"), "/cfg/x.toml");
    assert_eq!(path_in_config_folder(Some(s("")), "x.toml"), "x.toml");
    assert_eq!(path_in_config_folder(Some(s("cfg")), ""), "cfg/");
    assert_eq!(openvslam_path("/opt/run_api"), "/opt/run_api");
}

#[test]
fn detections_keep_their_ids_and_new_ones_get_fresh_numbers() {
    let mut ids = DetectionIds::new();
    assert_eq!(ids.id_for(None), 1);
    assert_eq!(ids.id_for(None), 2);
    assert_eq!(ids.id_for(Some(1)), 1);
    assert_eq!(ids.last, 2);
    assert_eq!(ids.assign_ids(&vec![Some(2), None, None, Some(1), None]), vec![2, 3, 4, 1, 5]);
    assert_eq!(ids.last, 5);
    assert_eq!(ids.assign_ids(&vec![]), Vec::<u32>::new());
    assert_eq!(ids.last, 5);
}

#[test]
fn image_numbers_at_the_u32_limit() {
    assert_eq!(image_number_of(&s("image_4294967295.jpg")), Some(Some(4294967295)));
    assert_eq!(image_number_of(&s("image_4294967296.jpg")), Some(None));
    assert_eq!(image_number_of(&s("image_007.jpeg")), Some(Some(7)));
}
