use nanogame3d::effect::{effect_active, EmitterActivity};

fn emitter(enable: bool, bursts: u32, max: Option<u32>, live: usize, subs: Vec<EmitterActivity>) -> EmitterActivity {
    EmitterActivity { enable_emit: enable, burst_count: bursts, max_bursts: max, live_particles: live, subs }
}

#[test]
fn emitter_activity_rules() {
    assert!(emitter(true, 0, None, 0, vec![]).active());
    assert!(emitter(true, 2, Some(3), 0, vec![]).active());
    assert!(!emitter(true, 3, Some(3), 0, vec![]).active());
    assert!(!emitter(false, 0, None, 0, vec![]).active());
    assert!(emitter(false, 0, None, 5, vec![]).active());
    let quiet_sub = emitter(false, 0, None, 0, vec![]);
    let busy_sub = emitter(false, 0, None, 1, vec![]);
    assert!(!emitter(false, 0, None, 0, vec![quiet_sub]).active());
    let nested = emitter(false, 0, None, 0, vec![emitter(false, 0, None, 0, vec![]), emitter(false, 0, Some(0), 0, vec![busy_sub])]);
    assert!(nested.active());
}

#[test]
fn effect_activity_is_any_emitter() {
    assert!(!effect_active(&vec![]));
    assert!(!effect_active(&vec![emitter(false, 0, None, 0, vec![]), emitter(true, 1, Some(1), 0, vec![])]));
    assert!(effect_active(&vec![emitter(false, 0, None, 0, vec![]), emitter(true, 0, Some(1), 0, vec![])]));
}

#[test]
fn emitter_burst_gate() {
    assert!(emitter(true, 0, None, 0, vec![]).emits_bursts(10));
    assert!(!emitter(true, 0, None, 0, vec![]).emits_bursts(0));
    assert!(!emitter(true, 4, Some(4), 0, vec![]).emits_bursts(10));
    assert!(!emitter(false, 0, None, 0, vec![]).emits_bursts(10));
}
