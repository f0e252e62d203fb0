use rt_audio_core::{
    run_blocks, Client, ClosureProcessHandler, Control, Lifecycle, ProcessHandler, ProcessScope,
};

fn quit_on_third(count: &mut u32, _: &Client, _: &ProcessScope) -> Control {
    *count += 1;
    if *count == 3 {
        Control::Quit
    } else {
        Control::Continue
    }
}

#[test]
fn lifecycle_starts_inactive() {
    assert_eq!(Lifecycle::new(), Lifecycle::Inactive);
    assert!(!Lifecycle::Inactive.invokes());
    assert!(Lifecycle::Activated.invokes());
    assert!(!Lifecycle::Deactivated.invokes());
}

#[test]
fn activation_moves_only_an_inactive_client() {
    assert_eq!(Lifecycle::Inactive.activate(), Lifecycle::Activated);
    assert_eq!(Lifecycle::Activated.activate(), Lifecycle::Activated);
    assert_eq!(Lifecycle::Deactivated.activate(), Lifecycle::Deactivated);
}

#[test]
fn deactivation_moves_only_an_activated_client() {
    assert_eq!(Lifecycle::Inactive.deactivate(), Lifecycle::Inactive);
    assert_eq!(Lifecycle::Activated.deactivate(), Lifecycle::Deactivated);
    assert_eq!(Lifecycle::Deactivated.deactivate(), Lifecycle::Deactivated);
}

#[test]
fn directives_move_the_state() {
    assert_eq!(Lifecycle::Activated.on_directive(Control::Continue), Lifecycle::Activated);
    assert_eq!(Lifecycle::Activated.on_directive(Control::Quit), Lifecycle::Deactivated);
    assert_eq!(Lifecycle::Inactive.on_directive(Control::Quit), Lifecycle::Inactive);
    assert_eq!(Lifecycle::Inactive.on_directive(Control::Continue), Lifecycle::Inactive);
    assert_eq!(Lifecycle::Deactivated.on_directive(Control::Continue), Lifecycle::Deactivated);
    assert_eq!(Lifecycle::Deactivated.on_directive(Control::Quit), Lifecycle::Deactivated);
}

#[test]
fn deactivated_stays_deactivated() {
    let mut state = Lifecycle::new().activate().on_directive(Control::Quit);
    for d in [Control::Continue, Control::Quit, Control::Continue] {
        state = state.on_directive(d);
        assert_eq!(state, Lifecycle::Deactivated);
        assert!(!state.invokes());
    }
    assert_eq!(state.activate(), Lifecycle::Deactivated);
}

#[test]
fn control_knows_a_quit() {
    assert!(Control::Quit.is_quit());
    assert!(!Control::Continue.is_quit());
}

#[test]
fn no_invocation_follows_a_quit() {
    let client = Client::new(48_000, 256);
    let scope = ProcessScope::new(256);
    let mut handler = ClosureProcessHandler::new(0u32).with_process_fn(quit_on_third);
    let directives = run_blocks(&mut handler, &client, &scope, 10);
    assert_eq!(directives, vec![Control::Continue, Control::Continue, Control::Quit]);
    assert_eq!(*handler.inner(), 3);
}

#[test]
fn run_ends_after_the_blocks_asked_for() {
    let client = Client::new(48_000, 256);
    let scope = ProcessScope::new(256);
    let mut handler = ClosureProcessHandler::new(0u32).with_process_fn(quit_on_third);
    let directives = run_blocks(&mut handler, &client, &scope, 2);
    assert_eq!(directives, vec![Control::Continue, Control::Continue]);
    assert_eq!(*handler.inner(), 2);
}

#[test]
fn run_of_no_blocks_invokes_nothing() {
    let client = Client::new(48_000, 256);
    let scope = ProcessScope::new(256);
    let mut handler = ClosureProcessHandler::new(0u32).with_process_fn(quit_on_third);
    let directives = run_blocks(&mut handler, &client, &scope, 0);
    assert!(directives.is_empty());
    assert_eq!(*handler.inner(), 0);
}

#[test]
fn quit_on_the_first_block_ends_the_run_at_once() {
    let client = Client::new(44_100, 64);
    let scope = ProcessScope::new(64);
    let mut handler = ClosureProcessHandler::new(0u32).with_process_fn(
        |count: &mut u32, _: &Client, _: &ProcessScope| {
            *count += 1;
            Control::Quit
        },
    );
    let directives = run_blocks(&mut handler, &client, &scope, 5);
    assert_eq!(directives, vec![Control::Quit]);
    assert_eq!(*handler.inner(), 1);
}

#[test]
fn unit_handler_runs_every_block() {
    let client = Client::new(48_000, 128);
    let scope = ProcessScope::new(128);
    let mut handler = ();
    let directives = run_blocks(&mut handler, &client, &scope, 4);
    assert_eq!(directives, vec![Control::Continue; 4]);
    assert_eq!(handler.process(&client, &scope), Control::Continue);
    assert_eq!(handler.buffer_size(&client, 512), Control::Continue);
}

#[test]
fn client_and_scope_report_what_they_were_made_with() {
    let client = Client::new(96_000, 1024);
    let scope = ProcessScope::new(512);
    assert_eq!(client.sample_rate(), 96_000);
    assert_eq!(client.buffer_size(), 1024);
    assert_eq!(scope.n_frames(), 512);
}

struct Silent {
    blocks: u32,
}

impl ProcessHandler for Silent {
    fn process(&mut self, _: &Client, _: &ProcessScope) -> Control {
        Control::Continue
    }

    fn buffer_size(&mut self, _: &Client, _: u32) -> Control {
        Control::Continue
    }
}

struct StopAfter {
    left: u32,
}

impl ProcessHandler for StopAfter {
    fn processed(&self, _: &Client, _: &ProcessScope, after: &Self, r: Control) -> bool {
        if self.left == 0 {
            r == Control::Quit && after.left == 0
        } else {
            r == Control::Continue && after.left + 1 == self.left
        }
    }

    fn process(&mut self, _: &Client, _: &ProcessScope) -> Control {
        if self.left == 0 {
            return Control::Quit;
        }
        self.left -= 1;
        Control::Continue
    }

    fn buffer_size(&mut self, _: &Client, _: u32) -> Control {
        Control::Continue
    }
}

#[test]
fn handler_that_only_continues_runs_every_block() {
    let client = Client::new(48_000, 128);
    let scope = ProcessScope::new(128);
    let mut handler = Silent { blocks: 0 };
    assert_eq!(handler.process(&client, &scope), Control::Continue);
    assert_eq!(handler.buffer_size(&client, 64), Control::Continue);
    assert_eq!(handler.blocks, 0);
    assert_eq!(run_blocks(&mut handler, &client, &scope, 3), vec![Control::Continue; 3]);
}

#[test]
fn handler_of_a_named_type_is_run_until_it_quits() {
    let client = Client::new(48_000, 128);
    let scope = ProcessScope::new(128);
    let mut handler = StopAfter { left: 2 };
    let directives = run_blocks(&mut handler, &client, &scope, 100);
    assert_eq!(directives, vec![Control::Continue, Control::Continue, Control::Quit]);
    assert_eq!(handler.left, 0);
    assert_eq!(handler.buffer_size(&client, 64), Control::Continue);
}

#[test]
fn frame_offsets_lie_strictly_within_the_block() {
    let scope = ProcessScope::new(256);
    assert!(scope.contains_frame(0));
    assert!(scope.contains_frame(128));
    assert!(scope.contains_frame(255));
    assert!(!scope.contains_frame(256));
    assert!(!scope.contains_frame(u32::MAX));
    assert!(!ProcessScope::new(0).contains_frame(0));
}
