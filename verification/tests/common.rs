use gamegirl::common::{Button, CgbMode, GG_SCREEN, SAMPLE_RATE};
use gamegirl::ggc::scheduling::{GGEvent, PpuEvent};
use gamegirl::psx::scheduling::PsxEvent;

#[test]
fn buttons_are_listed_in_index_order() {
    let all = Button::buttons();
    for (i, b) in all.iter().enumerate() {
        assert_eq!(i, b.index());
    }
    assert_eq!(Button::L, all[9]);
}

#[test]
fn constants() {
    assert_eq!(44100, SAMPLE_RATE);
    assert_eq!([160, 144], GG_SCREEN);
    assert_ne!(CgbMode::Always, CgbMode::Never);
}

#[test]
fn event_defaults_and_modes() {
    assert_eq!(GGEvent::PauseEmulation, GGEvent::default());
    assert_eq!(PsxEvent::PauseEmulation, PsxEvent::default());
    assert_eq!(0, PpuEvent::HblankEnd.ordinal());
    assert_eq!(3, PpuEvent::UploadEnd.ordinal());
}
