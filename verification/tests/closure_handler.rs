use rt_audio_core::{
    default_buffer_fn, default_process_fn, run_blocks, BoundedQueue, Client,
    ClosureProcessHandler, Control, Frames, MidiCopy, NotificationHandler, ProcessHandler,
    ProcessScope, RawMidi,
};
use std::sync::mpsc::sync_channel;

fn client() -> Client {
    Client::new(48_000, 256)
}

fn scope() -> ProcessScope {
    ProcessScope::new(256)
}

fn add_one(state: &mut i32, _: &Client, _: &ProcessScope) -> Control {
    *state += 1;
    Control::Continue
}

fn add_hundred_and_quit(state: &mut i32, _: &Client, _: &ProcessScope) -> Control {
    *state += 100;
    Control::Quit
}

fn store_size(state: &mut i32, _: &Client, size: Frames) -> Control {
    *state = size as i32;
    Control::Quit
}

fn negate(state: &mut i32, _: &Client, _: Frames) -> Control {
    *state = -*state;
    Control::Continue
}

#[test]
fn defaults_continue_and_leave_the_state_alone() {
    let mut handler = ClosureProcessHandler::new(7);
    assert_eq!(handler.process(&client(), &scope()), Control::Continue);
    assert_eq!(handler.buffer_size(&client(), 512), Control::Continue);
    assert_eq!(*handler.inner(), 7);
}

#[test]
fn default_functions_continue() {
    let mut state = 3;
    assert_eq!(default_buffer_fn(&mut state, &client(), 64), Control::Continue);
    assert_eq!(default_process_fn(&mut state, &client(), &scope()), Control::Continue);
    assert_eq!(state, 3);
}

#[test]
fn process_calls_the_supplied_process_behavior() {
    let mut handler = ClosureProcessHandler::new(0).with_process_fn(add_one);
    assert_eq!(handler.process(&client(), &scope()), Control::Continue);
    assert_eq!(handler.process(&client(), &scope()), Control::Continue);
    assert_eq!(*handler.inner(), 2);
    assert_eq!(handler.buffer_size(&client(), 512), Control::Continue);
    assert_eq!(*handler.inner(), 2);
}

#[test]
fn buffer_size_calls_the_supplied_buffer_behavior() {
    let mut handler = ClosureProcessHandler::new(0).with_buffer_fn(store_size);
    assert_eq!(handler.buffer_size(&client(), 512), Control::Quit);
    assert_eq!(*handler.inner(), 512);
    assert_eq!(handler.process(&client(), &scope()), Control::Continue);
    assert_eq!(*handler.inner(), 512);
}

#[test]
fn builders_can_be_chained_in_either_order() {
    let mut a = ClosureProcessHandler::new(1).with_buffer_fn(store_size).with_process_fn(add_one);
    let mut b = ClosureProcessHandler::new(1).with_process_fn(add_one).with_buffer_fn(store_size);
    assert_eq!(a.process(&client(), &scope()), b.process(&client(), &scope()));
    assert_eq!(*a.inner(), 2);
    assert_eq!(*b.inner(), 2);
    assert_eq!(a.buffer_size(&client(), 64), Control::Quit);
    assert_eq!(b.buffer_size(&client(), 64), Control::Quit);
    assert_eq!(*a.inner(), 64);
    assert_eq!(*b.inner(), 64);
}

#[test]
fn last_supplied_behavior_wins() {
    let mut handler = ClosureProcessHandler::new(0)
        .with_process_fn(add_one)
        .with_buffer_fn(negate)
        .with_process_fn(add_hundred_and_quit)
        .with_buffer_fn(store_size);
    assert_eq!(handler.process(&client(), &scope()), Control::Quit);
    assert_eq!(*handler.inner(), 100);
    assert_eq!(handler.buffer_size(&client(), 32), Control::Quit);
    assert_eq!(*handler.inner(), 32);
}

#[test]
fn builders_keep_the_state() {
    let handler = ClosureProcessHandler::new(41);
    assert_eq!(*handler.inner(), 41);
    let handler = handler.with_buffer_fn(negate);
    assert_eq!(*handler.inner(), 41);
    let handler = handler.with_process_fn(add_one);
    assert_eq!(*handler.inner(), 41);
}

#[test]
fn behaviors_see_the_client_and_the_scope() {
    let mut handler = ClosureProcessHandler::new(0u32)
        .with_process_fn(|state: &mut u32, c: &Client, ps: &ProcessScope| {
            *state = c.sample_rate() + ps.n_frames();
            Control::Continue
        })
        .with_buffer_fn(|state: &mut u32, c: &Client, size: Frames| {
            *state = c.buffer_size() + size;
            Control::Continue
        });
    let c = Client::new(1000, 20);
    handler.process(&c, &ProcessScope::new(3));
    assert_eq!(*handler.inner(), 1003);
    handler.buffer_size(&c, 5);
    assert_eq!(*handler.inner(), 25);
}

#[test]
fn five_blocks_relay_one_to_five_in_order() {
    let (sender, receiver) = sync_channel(8);
    let mut handler = ClosureProcessHandler::new(0).with_process_fn(
        move |state: &mut i32, _: &Client, _: &ProcessScope| {
            *state += 1;
            let _ = sender.try_send(*state);
            Control::Continue
        },
    );
    let directives = run_blocks(&mut handler, &client(), &scope(), 5);
    assert_eq!(directives.len(), 5);
    drop(handler);
    let mut received = Vec::new();
    while let Ok(v) = receiver.recv() {
        received.push(v);
    }
    assert_eq!(received, vec![1, 2, 3, 4, 5]);
}

#[test]
fn five_blocks_relay_through_a_bounded_queue() {
    let mut handler = ClosureProcessHandler::new((0, BoundedQueue::new(8))).with_process_fn(
        |state: &mut (i32, BoundedQueue<i32>), _: &Client, _: &ProcessScope| {
            state.0 += 1;
            let _ = state.1.try_send(state.0);
            Control::Continue
        },
    );
    for _ in 0..5 {
        assert_eq!(handler.process(&client(), &scope()), Control::Continue);
    }
    assert_eq!(handler.inner().1.len(), 5);
    let mut state = ClosureProcessHandler::new(0)
        .with_process_fn(add_one);
    assert_eq!(state.process(&client(), &scope()), Control::Continue);
}

#[test]
fn full_out_queue_drops_and_never_stalls_the_callback() {
    let (sender, receiver) = sync_channel(2);
    let mut handler = ClosureProcessHandler::new(0).with_process_fn(
        move |state: &mut i32, _: &Client, _: &ProcessScope| {
            *state += 1;
            let _ = sender.try_send(*state);
            Control::Continue
        },
    );
    let directives = run_blocks(&mut handler, &client(), &scope(), 6);
    assert_eq!(directives.len(), 6);
    assert_eq!(*handler.inner(), 6);
    drop(handler);
    let mut received = Vec::new();
    while let Ok(v) = receiver.recv() {
        received.push(v);
    }
    assert_eq!(received, vec![1, 2]);
}

#[test]
fn midi_snapshots_leave_the_callback_through_the_queue() {
    let mut handler = ClosureProcessHandler::new(BoundedQueue::<MidiCopy<3>>::new(4))
        .with_process_fn(|out: &mut BoundedQueue<MidiCopy<3>>, _: &Client, ps: &ProcessScope| {
            let note_on = [144u8, 64, 127, 99];
            let note_off = [128u8, 64];
            let _ = out.try_send(MidiCopy::from(RawMidi { time: 0, bytes: &note_on }));
            let _ = out.try_send(MidiCopy::from(RawMidi {
                time: ps.n_frames() / 2,
                bytes: &note_off,
            }));
            Control::Continue
        });
    assert_eq!(handler.process(&client(), &scope()), Control::Continue);
    let queued = handler.inner();
    assert_eq!(queued.len(), 2);
    let mut handler = handler.with_process_fn(
        |out: &mut BoundedQueue<MidiCopy<3>>, _: &Client, _: &ProcessScope| {
            let first = out.try_recv();
            let second = out.try_recv();
            match (first, second) {
                (Some(a), Some(b))
                    if a.bytes() == [144, 64, 127] && a.time() == 0 && b.bytes() == [128, 64]
                        && b.time() == 128 => Control::Quit,
                _ => Control::Continue,
            }
        },
    );
    assert_eq!(handler.process(&client(), &scope()), Control::Quit);
    assert!(handler.inner().is_empty());
}

#[test]
fn control_value_drained_in_the_callback_overrides_the_state() {
    let mut handler = ClosureProcessHandler::new((220u32, BoundedQueue::new(1))).with_process_fn(
        |state: &mut (u32, BoundedQueue<u32>), _: &Client, _: &ProcessScope| {
            state.0 = state.1.drain_latest(state.0);
            Control::Continue
        },
    );
    handler.process(&client(), &scope());
    assert_eq!(handler.inner().0, 220);
}

#[test]
fn unit_notification_handler_ignores_every_event() {
    let mut handler = ();
    handler.shutdown();
    handler.buffer_size_changed(&client(), 128);
    handler.ports_connected(&client(), 1, 2, true);
    assert_eq!(handler, ());
}

struct Counting {
    resized: u32,
    shut_down: bool,
}

impl NotificationHandler for Counting {
    fn shutdown(&mut self) {
        self.shut_down = true;
    }

    fn buffer_size_changed(&mut self, _: &Client, size: Frames) {
        self.resized = size;
    }
}

#[test]
fn notification_handler_overrides_only_what_it_cares_about() {
    let mut handler = Counting { resized: 0, shut_down: false };
    handler.ports_connected(&client(), 3, 4, false);
    assert_eq!(handler.resized, 0);
    assert!(!handler.shut_down);
    handler.buffer_size_changed(&client(), 1024);
    assert_eq!(handler.resized, 1024);
    handler.shutdown();
    assert!(handler.shut_down);
}
