use x_panel::modules::{
    AnyModule, ClockModule, NetworkMonitorModule, SystemInfoModule, SystemTempModule, WebApiModule,
};
use x_panel::panel::{Key, LayoutMode, ModulesView, PanelCommand};
use x_panel::schedule::RefreshSchedule;
use x_panel::{ModuleRegistry, Panel, PanelModule};

fn module(name: &str) -> WebApiModule {
    WebApiModule::new(name.to_string(), "https://example.com".to_string(), 30)
}

fn panel(n: usize) -> Panel<WebApiModule> {
    let mut p = Panel::new();
    for i in 0..n {
        p.register_module(module(&format!("m{}", i)));
    }
    p
}

fn press(p: &mut Panel<WebApiModule>, key: Key) -> PanelCommand {
    assert!(p.key_is_safe(key));
    p.handle_key(key)
}

#[test]
fn new_panel_defaults() {
    let p = panel(0);
    assert!(p.is_running());
    assert_eq!(p.layout_mode(), LayoutMode::Single);
    assert_eq!(p.column_weights(), &vec![10]);
    assert_eq!(p.module_count(), 0);
    assert_eq!(p.get_current_module_name(), "无");
    let p = panel(3);
    assert_eq!(p.module_count(), 3);
    assert_eq!(p.module_height_deltas(), &vec![0, 0, 0]);
    assert_eq!(p.get_current_module_name(), "m0");
}

#[test]
fn layout_cycles_in_three_presses() {
    assert_eq!(LayoutMode::Single.next(), LayoutMode::Double);
    assert_eq!(LayoutMode::Triple.next(), LayoutMode::Single);
    assert_eq!(LayoutMode::Triple.columns(), 3);
    let mut p = panel(4);
    press(&mut p, Key::Char('l'));
    assert_eq!(p.layout_mode(), LayoutMode::Double);
    assert_eq!(p.column_weights(), &vec![10, 10]);
    assert_eq!(p.status_message(), "布局：2 列");
    press(&mut p, Key::Char('L'));
    assert_eq!(p.column_weights(), &vec![10, 10, 10]);
    press(&mut p, Key::Char('l'));
    assert_eq!(p.layout_mode(), LayoutMode::Single);
    assert_eq!(p.column_weights(), &vec![10]);
}

#[test]
fn interval_keys_step_and_clamp() {
    let mut p = panel(2);
    press(&mut p, Key::Char('+'));
    assert_eq!(p.status_message(), "m0: 刷新间隔 40 秒");
    for _ in 0..40 {
        press(&mut p, Key::Char('='));
    }
    assert_eq!(p.status_message(), "m0: 刷新间隔 300 秒");
    let mut p = panel(1);
    press(&mut p, Key::Char('-'));
    assert_eq!(p.status_message(), "m0: 刷新间隔 25 秒");
    for _ in 0..10 {
        press(&mut p, Key::Char('-'));
    }
    assert_eq!(p.status_message(), "m0: 刷新间隔 1 秒");
}

#[test]
fn interval_keys_touch_only_the_selected_module() {
    let mut p = panel(3);
    press(&mut p, Key::Down);
    press(&mut p, Key::Char('+'));
    press(&mut p, Key::Char(' '));
    let intervals: Vec<u64> = (0..3).map(|i| p.registry().module_at(i).unwrap().refresh_interval()).collect();
    assert_eq!(intervals, vec![30, 0, 30]);
    press(&mut p, Key::Char(' '));
    assert_eq!(p.registry().module_at(1).unwrap().refresh_interval(), 40);
}

#[test]
fn space_pauses_and_resumes() {
    let mut p = panel(2);
    press(&mut p, Key::Char(' '));
    assert_eq!(p.status_message(), "m0: 已暂停");
    press(&mut p, Key::Char(' '));
    assert_eq!(p.status_message(), "m0: 已恢复");
}

#[test]
fn refresh_keys_return_commands() {
    let mut p = panel(2);
    assert_eq!(press(&mut p, Key::Char('r')), PanelCommand::RefreshAll);
    assert_eq!(p.status_message(), "已刷新所有模块");
    press(&mut p, Key::Down);
    assert_eq!(press(&mut p, Key::Char('u')), PanelCommand::Refresh("m1".to_string()));
    assert_eq!(p.status_message(), "已刷新：m1");
    assert_eq!(press(&mut p, Key::Char('x')), PanelCommand::Nothing);
}

#[test]
fn q_stops_the_panel() {
    let mut p = panel(1);
    press(&mut p, Key::Char('q'));
    assert!(!p.is_running());
}

#[test]
fn up_and_down_move_the_selection() {
    let mut p = panel(3);
    press(&mut p, Key::Up);
    assert_eq!(p.current_module_idx(), 0);
    press(&mut p, Key::Down);
    assert_eq!(p.current_module_idx(), 1);
    assert_eq!(p.status_message(), "选中：m1");
    press(&mut p, Key::Down);
    press(&mut p, Key::Down);
    assert_eq!(p.current_module_idx(), 2);
    press(&mut p, Key::Up);
    assert_eq!(p.current_module_idx(), 1);
}

#[test]
fn esc_toggles_about_page() {
    let mut p = panel(1);
    press(&mut p, Key::Esc);
    assert!(p.show_about());
    assert_eq!(p.status_message(), "关于页面 - 按 ESC 关闭");
    press(&mut p, Key::Esc);
    assert!(!p.show_about());
    assert_eq!(p.status_message(), "");
}

#[test]
fn settings_hide_modules_and_selection_moves_off_them() {
    let mut p = panel(3);
    press(&mut p, Key::Esc);
    press(&mut p, Key::Char('s'));
    assert!(p.show_settings());
    assert!(!p.show_about());
    assert_eq!(p.status_message(), "模块设置 - ESC 返回");
    press(&mut p, Key::Char(' '));
    assert!(!p.registry().is_visible("m0"));
    let lines = p.settings_lines();
    assert_eq!(lines[0], ("[✗] m0".to_string(), true));
    assert_eq!(lines[1], ("[✓] m1".to_string(), false));
    press(&mut p, Key::Down);
    press(&mut p, Key::Down);
    press(&mut p, Key::Down);
    assert_eq!(p.settings_cursor(), 2);
    press(&mut p, Key::Up);
    assert_eq!(p.settings_cursor(), 1);
    press(&mut p, Key::Esc);
    assert!(!p.show_settings());
    assert_eq!(p.current_module_idx(), 1);
    assert_eq!(p.status_message(), "");
    press(&mut p, Key::Up);
    assert_eq!(p.current_module_idx(), 1);
}

#[test]
fn space_twice_in_settings_restores_the_switch() {
    let mut p = panel(2);
    press(&mut p, Key::Char('S'));
    press(&mut p, Key::Down);
    press(&mut p, Key::Char(' '));
    assert!(!p.registry().is_visible("m1"));
    press(&mut p, Key::Char(' '));
    assert!(p.registry().is_visible("m1"));
    assert_eq!(p.registry().visible_count(), 2);
}

#[test]
fn settings_down_with_no_modules_is_unsafe() {
    let mut p = panel(0);
    press(&mut p, Key::Char('s'));
    assert!(!p.key_is_safe(Key::Down));
    assert!(p.key_is_safe(Key::Up));
}

#[test]
fn column_width_keys() {
    let mut p = panel(4);
    press(&mut p, Key::Char(']'));
    assert_eq!(p.column_weights(), &vec![10]);
    press(&mut p, Key::Char('l'));
    press(&mut p, Key::Char(']'));
    assert_eq!(p.column_weights(), &vec![11, 10]);
    assert_eq!(p.status_message(), "列1宽度：11");
    for _ in 0..20 {
        press(&mut p, Key::Char('['));
    }
    assert_eq!(p.column_weights(), &vec![3, 10]);
    press(&mut p, Key::Right);
    assert_eq!(p.current_module_idx(), 2);
    for _ in 0..20 {
        press(&mut p, Key::Char(']'));
    }
    assert_eq!(p.column_weights(), &vec![3, 20]);
    assert_eq!(p.status_message(), "列2宽度：20");
}

#[test]
fn horizontal_moves_between_columns() {
    let mut p = panel(5);
    press(&mut p, Key::Right);
    assert_eq!(p.current_module_idx(), 0);
    press(&mut p, Key::Char('l'));
    assert_eq!(p.modules_per_column(), 3);
    press(&mut p, Key::Down);
    press(&mut p, Key::Down);
    press(&mut p, Key::Right);
    assert_eq!(p.current_module_idx(), 4);
    assert_eq!(p.navigate_horizontal(4, 1), None);
    assert_eq!(p.navigate_horizontal(4, -1), Some(1));
    press(&mut p, Key::Left);
    assert_eq!(p.current_module_idx(), 1);
    assert_eq!(p.status_message(), "选中：m1");
}

#[test]
fn height_keys_move_rows_between_two_modules() {
    let mut p = panel(4);
    press(&mut p, Key::PageDown);
    assert_eq!(p.status_message(), "当前列不支持调整高度（仅 2 个模块的列可调）");
    press(&mut p, Key::Char('l'));
    press(&mut p, Key::Char('}'));
    assert_eq!(p.module_height_deltas(), &vec![1, -1, 0, 0]);
    assert_eq!(p.status_message(), "m0: 高度偏移 1 (范围 -5 ~ +10)");
    for _ in 0..20 {
        press(&mut p, Key::PageDown);
    }
    assert_eq!(p.module_height_deltas(), &vec![10, -5, 0, 0]);
    press(&mut p, Key::Char('{'));
    assert_eq!(p.module_height_deltas(), &vec![9, -4, 0, 0]);
}

#[test]
fn status_line_text() {
    let mut p = panel(2);
    press(&mut p, Key::Down);
    assert_eq!(
        p.status_line(),
        "选中：m1 | 模块：2/2 (可见 2) | 布局：1列 | 空格-暂停 | l-布局 | [/]-列宽 | PgUp/PgDn-列高"
    );
}

#[test]
fn module_area_plan() {
    let p = panel(0);
    assert!(matches!(p.plan_modules(), ModulesView::NoModules));
    let mut p = panel(3);
    press(&mut p, Key::Char('l'));
    press(&mut p, Key::Char(']'));
    assert!(p.heights_fit_exec());
    match p.plan_modules() {
        ModulesView::Columns(cols) => {
            assert_eq!(cols.len(), 2);
            assert_eq!(cols[0].percent, 52);
            assert_eq!(cols[1].percent, 47);
            assert_eq!(cols[0].modules.len(), 2);
            assert_eq!(cols[1].modules.len(), 1);
            assert_eq!(cols[0].modules[0].position, 0);
            assert!(cols[0].modules[0].selected);
            assert_eq!(cols[0].modules[0].height, 9);
            assert_eq!(cols[1].modules[0].position, 2);
        }
        _ => panic!("expected columns"),
    }
    press(&mut p, Key::Char('s'));
    press(&mut p, Key::Char(' '));
    press(&mut p, Key::Down);
    press(&mut p, Key::Char(' '));
    press(&mut p, Key::Down);
    press(&mut p, Key::Char(' '));
    assert!(matches!(p.plan_modules(), ModulesView::AllHidden));
}

#[test]
fn registry_operations() {
    let mut r: ModuleRegistry<WebApiModule> = ModuleRegistry::new();
    assert!(r.is_empty());
    r.register(module("a"));
    r.register(module("b"));
    r.register(module("c"));
    assert_eq!(r.len(), 3);
    assert!(r.is_visible("zzz"));
    r.set_visible("b", false);
    assert!(!r.is_visible("b"));
    assert_eq!(r.visible_count(), 2);
    assert_eq!(r.nth_id(1), Some("b".to_string()));
    assert_eq!(r.nth_id(3), None);
    r.swap(0, 2);
    assert_eq!(r.order(), &["c".to_string(), "b".to_string(), "a".to_string()]);
    r.swap(0, 2);
    r.swap(0, 9);
    assert_eq!(r.order(), &["a".to_string(), "b".to_string(), "c".to_string()]);
    r.move_up(2);
    assert_eq!(r.order(), &["a".to_string(), "c".to_string(), "b".to_string()]);
    r.move_down(1);
    assert_eq!(r.order(), &["a".to_string(), "b".to_string(), "c".to_string()]);
    r.move_up(0);
    r.move_down(2);
    assert_eq!(r.order(), &["a".to_string(), "b".to_string(), "c".to_string()]);
    let names: Vec<String> = r.modules().iter().map(|(id, _)| id.to_string()).collect();
    assert_eq!(names, vec!["a", "b", "c"]);
    assert!(r.get_mut_by_id("c").is_some());
    assert!(r.get_mut_by_id("d").is_none());
    match r.get_mut(0) {
        Some((id, m)) => {
            assert_eq!(id, "a");
            m.toggle_pause();
        }
        None => panic!("missing module"),
    }
    assert!(r.get_mut(5).is_none());
    r.set_order(vec!["c".to_string(), "a".to_string()]);
    assert_eq!(r.order(), &["c".to_string(), "a".to_string()]);
    r.register(module("a"));
    assert_eq!(r.len(), 3);
}

#[test]
fn schedule_updates_modules_when_due() {
    let mut r: ModuleRegistry<WebApiModule> = ModuleRegistry::new();
    r.register(WebApiModule::new("fast".into(), "u".into(), 1));
    r.register(WebApiModule::new("slow".into(), "u".into(), 10));
    r.register(WebApiModule::new("stopped".into(), "u".into(), 1));
    if let Some((_, m)) = r.get_mut_by_id("stopped") {
        m.toggle_pause();
    }
    let mut s = RefreshSchedule::new();
    assert!(s.due(&r, 1_000).is_empty());
    assert_eq!(s.due(&r, 1_999), Vec::<String>::new());
    assert_eq!(s.due(&r, 2_000), vec!["fast".to_string()]);
    assert_eq!(s.due(&r, 11_000), vec!["fast".to_string(), "slow".to_string()]);
    assert_eq!(s.due(&r, 11_500), Vec::<String>::new());
}

#[test]
fn clock_interval_and_pause_messages() {
    let mut p: Panel<ClockModule> = Panel::new();
    p.register_module(ClockModule::new(295));
    assert!(p.key_is_safe(Key::Char('+')));
    p.handle_key(Key::Char('+'));
    assert_eq!(p.status_message(), "🕐 时钟日历: 刷新间隔 300 秒");
    let mut p: Panel<ClockModule> = Panel::new();
    p.register_module(ClockModule::new(1));
    p.handle_key(Key::Char(' '));
    assert_eq!(p.status_message(), "🕐 时钟日历: 已暂停");
    assert_eq!(p.registry().module_at(0).unwrap().refresh_interval(), 0);
}

#[test]
fn built_in_modules_register_apart() {
    let mut p: Panel<AnyModule> = Panel::new();
    p.register_module(AnyModule::Clock(ClockModule::new(1)));
    p.register_module(AnyModule::SystemInfo(SystemInfoModule::new(30)));
    p.register_module(AnyModule::Temp(SystemTempModule::new(10)));
    p.register_module(AnyModule::Network(NetworkMonitorModule::new(String::new(), Vec::new(), 5)));
    p.register_module(AnyModule::Web(module("w")));
    assert_eq!(p.module_count(), 5);
    p.handle_key(Key::Char('l'));
    assert_eq!(p.navigate_horizontal(2, 1), Some(4));
    assert_eq!(p.navigate_horizontal(4, -1), Some(1));
    assert_eq!(p.navigate_horizontal(4, 1), None);
    assert_eq!(p.navigate_horizontal(0, -1), None);
    let mut q: Panel<AnyModule> = Panel::new();
    q.register_module(AnyModule::Clock(ClockModule::new(1)));
    q.register_module(AnyModule::Temp(SystemTempModule::new(10)));
    q.adjust_module_height(1, -1);
    assert_eq!(q.module_height_deltas(), &vec![1, -1]);
}
