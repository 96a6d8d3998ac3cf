use device_envoy_core::simulator::{
    CydTouchWasmSource, InteractionState, WifiSimulatorPhase, WifiSimulatorPhases,
    WifiSimulatorWasm,
};
use device_envoy_core::touch::RawTouchEvent;

#[test]
fn wifi_state_is_scoped_by_storage_namespace() {
    let mut phases = WifiSimulatorPhases::new();
    phases.set_phase("app-a", WifiSimulatorPhase::Connected);
    assert_eq!(
        WifiSimulatorWasm::new("app-a").phase(&phases),
        WifiSimulatorPhase::Connected
    );
    assert_eq!(
        WifiSimulatorWasm::new("app-b").phase(&phases),
        WifiSimulatorPhase::Disconnected
    );

    WifiSimulatorWasm::new("app-a").reset(&mut phases);
    assert_eq!(
        WifiSimulatorWasm::new("app-a").phase(&phases),
        WifiSimulatorPhase::Disconnected
    );
    assert_eq!(
        WifiSimulatorWasm::new("app-b").phase(&phases),
        WifiSimulatorPhase::Disconnected
    );
}

#[test]
fn setting_a_phase_twice_keeps_the_latest() {
    let mut phases = WifiSimulatorPhases::new();
    let app = WifiSimulatorWasm::new("demo");
    app.set_phase(&mut phases, WifiSimulatorPhase::CaptivePortal);
    app.set_phase(&mut phases, WifiSimulatorPhase::Connecting);
    phases.set_phase("other", WifiSimulatorPhase::Connected);
    assert_eq!(app.phase(&phases), WifiSimulatorPhase::Connecting);
    assert_eq!(phases.phase("other"), WifiSimulatorPhase::Connected);
}

#[test]
fn touch_source_reports_down_move_up() {
    let mut touch = CydTouchWasmSource::new();
    touch.touch_move(5, 5);
    assert_eq!(touch.take_event(), None);
    touch.touch_down(10, 20);
    touch.touch_move(12, 22);
    assert_eq!(touch.latest_raw_point(), Some((12, 22)));
    touch.touch_up();
    assert_eq!(touch.latest_raw_point(), None);
    assert_eq!(touch.take_event(), Some(RawTouchEvent::Down { raw_x: 10, raw_y: 20 }));
    assert_eq!(touch.take_event(), Some(RawTouchEvent::Move { raw_x: 12, raw_y: 22 }));
    assert_eq!(touch.take_event(), Some(RawTouchEvent::Up));
    assert_eq!(touch.take_event(), None);
}

#[test]
fn waiting_for_fresh_press_ignores_input_until_release() {
    let mut touch = CydTouchWasmSource::new();
    touch.touch_down(1, 2);
    touch.wait_for_fresh_press();
    assert_eq!(touch.take_event(), None);
    touch.touch_down(3, 4);
    touch.touch_move(5, 6);
    touch.touch_up();
    assert_eq!(touch.take_event(), None);
    touch.touch_down(7, 8);
    assert_eq!(touch.take_event(), Some(RawTouchEvent::Down { raw_x: 7, raw_y: 8 }));
    let _ = InteractionState::Ready;
}
