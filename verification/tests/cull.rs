use raxis::cull::{commands_to_run, cull_commands, CommandKind};

use CommandKind::{Always, Draw, PopClip, PopLayer, PushClip, PushLayer};

#[test]
fn visible_commands_all_run() {
    let kinds = [Always, PushLayer, Draw, PushClip { rounded: true }, Draw, PopClip { rounded: true }, PopLayer];
    assert_eq!(cull_commands(&kinds, &[true; 7]), vec![true; 7]);
}

#[test]
fn invisible_draws_are_skipped_alone() {
    let kinds = [Draw, Always, Draw, PopLayer];
    let vis = [false, false, true, false];
    assert_eq!(cull_commands(&kinds, &vis), vec![false, true, true, true]);
}

#[test]
fn a_clip_outside_the_region_skips_up_to_its_end() {
    let kinds = [
        Draw,
        PushClip { rounded: false },
        Draw,
        PushLayer,
        PushClip { rounded: true },
        Draw,
        PopClip { rounded: true },
        PopLayer,
        Always,
        PopClip { rounded: false },
        Draw,
        PushClip { rounded: true },
        PopClip { rounded: true },
    ];
    let vis = [true, false, true, true, true, true, true, true, true, true, true, true, true];
    assert_eq!(
        cull_commands(&kinds, &vis),
        vec![true, false, false, false, false, false, false, false, false, false, true, true, true]
    );
}

#[test]
fn empty_recording() {
    assert_eq!(cull_commands(&[], &[]), Vec::<bool>::new());
}

fn balanced(kinds: &[CommandKind]) -> bool {
    let mut stack = Vec::new();
    for k in kinds {
        match k {
            PushLayer => stack.push(0),
            PushClip { rounded } => stack.push(if *rounded { 1 } else { 2 }),
            PopLayer => {
                if stack.pop() != Some(0) {
                    return false;
                }
            }
            PopClip { rounded } => {
                if stack.pop() != Some(if *rounded { 1 } else { 2 }) {
                    return false;
                }
            }
            _ => {}
        }
    }
    stack.is_empty()
}

#[test]
fn culling_a_balanced_recording_keeps_it_balanced() {
    let kinds = [
        PushLayer,
        PushClip { rounded: true },
        Draw,
        PushClip { rounded: false },
        Draw,
        PopClip { rounded: false },
        PopClip { rounded: true },
        PushClip { rounded: false },
        PopClip { rounded: false },
        PopLayer,
    ];
    assert!(balanced(&kinds));
    for pattern in 0u32..(1 << kinds.len()) {
        let visible: Vec<bool> = (0..kinds.len()).map(|i| pattern & (1 << i) != 0).collect();
        let mask = cull_commands(&kinds, &visible);
        let kept: Vec<CommandKind> = kinds.iter().zip(&mask).filter(|(_, m)| **m).map(|(k, _)| *k).collect();
        assert!(balanced(&kept), "{:?}", visible);
    }
}

#[test]
fn without_a_region_every_command_runs_in_order() {
    let kinds = [PushClip { rounded: false }, Draw, PopClip { rounded: false }, Always];
    assert_eq!(commands_to_run(&kinds, None), vec![0, 1, 2, 3]);
}

#[test]
fn with_a_region_the_culled_commands_are_left_out() {
    let kinds = [Draw, PushClip { rounded: false }, Draw, PopClip { rounded: false }, Draw, Always];
    let vis = [true, false, true, true, false, false];
    assert_eq!(commands_to_run(&kinds, Some(&vis)), vec![0, 5]);
}
