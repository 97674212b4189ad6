use epaper_refresh::framebuffer::Framebuffer;
use epaper_refresh::orchestrator::{Action, Event, Failure, Orchestrator};
use epaper_refresh::panel::{PanelCommand, PanelFault, PanelState};
use epaper_refresh::payload::TextPayload;
use epaper_refresh::transport::{received, StaticSource};

fn rendered(text: &[u8]) -> Vec<u8> {
    let mut frame = Framebuffer::new();
    frame.render(&TextPayload::decode(text).unwrap());
    frame.bytes().to_vec()
}

fn started() -> Orchestrator {
    let mut orchestrator = Orchestrator::new();
    assert_eq!(orchestrator.step(Event::Panel(Ok(()))), Action::Poll);
    orchestrator
}

fn refreshing(chunk: &[u8], until: PanelCommand) -> Orchestrator {
    let mut orchestrator = started();
    orchestrator.step(Event::Input(Some(chunk)));
    let mut action = orchestrator.step(Event::Acknowledged);
    while action != Action::Panel(until) {
        action = orchestrator.step(Event::Panel(Ok(())));
    }
    orchestrator
}

#[test]
fn first_action_is_to_initialize_the_panel() {
    let orchestrator = Orchestrator::new();
    assert_eq!(orchestrator.pending(), Action::Panel(PanelCommand::Initialize));
    assert_eq!(orchestrator.panel(), PanelState::Uninitialized);
    assert_eq!(orchestrator.failure(), None);
    assert_eq!(orchestrator.frame(), &[0xffu8; 4736][..]);
}

#[test]
fn initialized_panel_sleeps_while_input_is_polled() {
    let mut orchestrator = started();
    assert_eq!(orchestrator.panel(), PanelState::Ready);
    for _ in 0..5 {
        assert_eq!(orchestrator.step(Event::Input(None)), Action::Poll);
        assert_eq!(orchestrator.panel(), PanelState::Ready);
        assert_eq!(orchestrator.frame(), &[0xffu8; 4736][..]);
    }
}

#[test]
fn failed_initialization_halts() {
    let mut orchestrator = Orchestrator::new();
    assert_eq!(orchestrator.step(Event::Panel(Err(PanelFault::Transport))), Action::Halt);
    assert_eq!(orchestrator.panel(), PanelState::Failed);
    assert_eq!(
        orchestrator.failure(),
        Some(Failure { command: PanelCommand::Initialize, fault: PanelFault::Transport })
    );
}

#[test]
fn three_line_payload_runs_one_full_cycle_and_ends_asleep() {
    let chunk = b"Title\nfirst\nsecond";
    let mut orchestrator = started();
    let mut trace = Vec::new();
    let mut action = orchestrator.step(Event::Input(Some(chunk)));
    loop {
        trace.push((action, orchestrator.panel()));
        action = match action {
            Action::Acknowledge => orchestrator.step(Event::Acknowledged),
            Action::Panel(_) => orchestrator.step(Event::Panel(Ok(()))),
            Action::Poll | Action::Halt => break,
        };
    }
    assert_eq!(
        trace,
        vec![
            (Action::Acknowledge, PanelState::Ready),
            (Action::Panel(PanelCommand::Wake), PanelState::Ready),
            (Action::Panel(PanelCommand::ClearFrame), PanelState::Awake),
            (Action::Panel(PanelCommand::UpdateFrame), PanelState::Awake),
            (Action::Panel(PanelCommand::DisplayFrame), PanelState::FrameLoaded),
            (Action::Panel(PanelCommand::Sleep), PanelState::Displaying),
            (Action::Poll, PanelState::Ready),
        ]
    );
    assert_eq!(orchestrator.panel(), PanelState::Ready);
    assert_eq!(orchestrator.failure(), None);
    assert_eq!(orchestrator.frame(), &rendered(chunk)[..]);
}

#[test]
fn text_is_drawn_between_clearing_and_transfer() {
    let chunk = b"Hello\nWorld";
    let before_clear = refreshing(chunk, PanelCommand::ClearFrame);
    assert_eq!(before_clear.frame(), &[0xffu8; 4736][..]);
    let before_transfer = refreshing(chunk, PanelCommand::UpdateFrame);
    assert_eq!(before_transfer.frame(), &rendered(chunk)[..]);
}

#[test]
fn malformed_chunk_is_acknowledged_and_dropped() {
    let mut orchestrator = refreshing(b"shown before", PanelCommand::Sleep);
    assert_eq!(orchestrator.step(Event::Panel(Ok(()))), Action::Poll);
    let shown = orchestrator.frame().to_vec();
    assert_eq!(orchestrator.step(Event::Input(Some(&[0xff, 0xfe, 0x41]))), Action::Acknowledge);
    assert_eq!(orchestrator.step(Event::Acknowledged), Action::Poll);
    assert_eq!(orchestrator.panel(), PanelState::Ready);
    assert_eq!(orchestrator.frame(), &shown[..]);
    assert_eq!(orchestrator.failure(), None);
    assert_eq!(orchestrator.step(Event::Input(None)), Action::Poll);
}

#[test]
fn chunk_after_a_dropped_one_is_shown() {
    let mut orchestrator = started();
    orchestrator.step(Event::Input(Some(&[0xc3])));
    assert_eq!(orchestrator.step(Event::Acknowledged), Action::Poll);
    assert_eq!(orchestrator.step(Event::Input(Some(b"ok now"))), Action::Acknowledge);
    assert_eq!(orchestrator.step(Event::Acknowledged), Action::Panel(PanelCommand::Wake));
}

#[test]
fn every_chunk_is_acknowledged_before_anything_else() {
    for chunk in [&b"text"[..], &[0xff][..], &b""[..], &[b'a'; 3000][..]] {
        let mut orchestrator = started();
        assert_eq!(orchestrator.step(Event::Input(Some(chunk))), Action::Acknowledge);
        assert_eq!(orchestrator.panel(), PanelState::Ready);
    }
}

#[test]
fn failed_read_and_empty_read_start_nothing() {
    let mut orchestrator = started();
    let buffer = [0u8; 64];
    assert_eq!(orchestrator.step(Event::Input(received(&buffer, None))), Action::Poll);
    assert_eq!(orchestrator.step(Event::Input(received(&buffer, Some(0)))), Action::Poll);
    assert_eq!(orchestrator.panel(), PanelState::Ready);
}

#[test]
fn second_refresh_draws_over_the_first() {
    let mut orchestrator = refreshing(b"AAAA\nbody", PanelCommand::Sleep);
    assert_eq!(orchestrator.step(Event::Panel(Ok(()))), Action::Poll);
    orchestrator.step(Event::Input(Some(b"BB")));
    let mut action = orchestrator.step(Event::Acknowledged);
    while action != Action::Poll {
        action = orchestrator.step(Event::Panel(Ok(())));
    }
    let mut frame = Framebuffer::new();
    frame.render(&TextPayload::decode(b"AAAA\nbody").unwrap());
    frame.render(&TextPayload::decode(b"BB").unwrap());
    assert_eq!(orchestrator.frame(), frame.bytes());
    assert_eq!(orchestrator.panel(), PanelState::Ready);
}

#[test]
fn fault_in_any_command_of_a_refresh_halts_at_once() {
    let commands = [
        PanelCommand::Wake,
        PanelCommand::ClearFrame,
        PanelCommand::UpdateFrame,
        PanelCommand::DisplayFrame,
        PanelCommand::Sleep,
    ];
    for command in commands {
        for fault in [PanelFault::Transport, PanelFault::BusyTimeout] {
            let mut orchestrator = refreshing(b"text", command);
            let frame = orchestrator.frame().to_vec();
            assert_eq!(orchestrator.step(Event::Panel(Err(fault))), Action::Halt);
            assert_eq!(orchestrator.panel(), PanelState::Failed);
            assert_eq!(orchestrator.failure(), Some(Failure { command, fault }));
            assert_eq!(orchestrator.frame(), &frame[..]);
        }
    }
}

#[test]
fn command_reported_as_out_of_order_halts_with_that_fault() {
    let mut orchestrator = refreshing(b"text", PanelCommand::Wake);
    assert_eq!(orchestrator.step(Event::Panel(Err(PanelFault::OutOfOrder))), Action::Halt);
    assert_eq!(
        orchestrator.failure(),
        Some(Failure { command: PanelCommand::Wake, fault: PanelFault::OutOfOrder })
    );
}

#[test]
fn halted_orchestrator_stays_halted() {
    let mut orchestrator = refreshing(b"text", PanelCommand::UpdateFrame);
    orchestrator.step(Event::Panel(Err(PanelFault::BusyTimeout)));
    let failure = orchestrator.failure();
    for event in [
        Event::Panel(Ok(())),
        Event::Input(Some(&b"again"[..])),
        Event::Input(None),
        Event::Acknowledged,
        Event::Panel(Err(PanelFault::Transport)),
    ] {
        assert_eq!(orchestrator.step(event), Action::Halt);
        assert_eq!(orchestrator.panel(), PanelState::Failed);
        assert_eq!(orchestrator.failure(), failure);
    }
}

#[test]
fn chunk_reported_during_a_refresh_is_not_looked_at() {
    let mut orchestrator = refreshing(b"first", PanelCommand::UpdateFrame);
    assert_eq!(
        orchestrator.step(Event::Input(Some(b"second"))),
        Action::Panel(PanelCommand::UpdateFrame)
    );
    assert_eq!(orchestrator.panel(), PanelState::Awake);
    let mut action = orchestrator.step(Event::Panel(Ok(())));
    while action != Action::Poll {
        action = orchestrator.step(Event::Panel(Ok(())));
    }
    assert_eq!(orchestrator.frame(), &rendered(b"first")[..]);
}

#[test]
fn event_that_answers_nothing_changes_nothing() {
    let mut orchestrator = started();
    assert_eq!(orchestrator.step(Event::Acknowledged), Action::Poll);
    assert_eq!(orchestrator.step(Event::Panel(Ok(()))), Action::Poll);
    assert_eq!(orchestrator.step(Event::Panel(Err(PanelFault::Transport))), Action::Poll);
    assert_eq!(orchestrator.panel(), PanelState::Ready);
    assert_eq!(orchestrator.failure(), None);
}

#[test]
fn chunk_longer_than_the_buffer_is_shown_cut_to_its_capacity() {
    let mut chunk = vec![b'a'; 2048];
    chunk.extend_from_slice(b"\ndropped");
    let mut orchestrator = started();
    orchestrator.step(Event::Input(Some(&chunk)));
    let mut action = orchestrator.step(Event::Acknowledged);
    assert_eq!(action, Action::Panel(PanelCommand::Wake));
    while action != Action::Poll {
        action = orchestrator.step(Event::Panel(Ok(())));
    }
    assert_eq!(orchestrator.frame(), &rendered(&chunk[..2048])[..]);
}

#[test]
fn static_text_is_shown_once_and_then_nothing_more_happens() {
    let mut source = StaticSource::new("Hello\nWorld");
    let mut orchestrator = Orchestrator::new();
    let mut action = orchestrator.pending();
    let mut panel_commands = Vec::new();
    let mut polls = 0;
    while polls < 20 {
        let event = match action {
            Action::Panel(command) => {
                panel_commands.push(command);
                Event::Panel(Ok(()))
            }
            Action::Poll => {
                polls += 1;
                Event::Input(source.poll_input())
            }
            Action::Acknowledge => {
                source.acknowledge(b"ok !\n");
                Event::Acknowledged
            }
            Action::Halt => panic!("no fault was reported"),
        };
        action = orchestrator.step(event);
    }
    assert_eq!(
        panel_commands,
        vec![
            PanelCommand::Initialize,
            PanelCommand::Wake,
            PanelCommand::ClearFrame,
            PanelCommand::UpdateFrame,
            PanelCommand::DisplayFrame,
            PanelCommand::Sleep,
        ]
    );
    assert_eq!(orchestrator.panel(), PanelState::Ready);
    assert_eq!(orchestrator.frame(), &rendered(b"Hello\nWorld")[..]);
}

#[test]
fn empty_static_text_still_draws_its_empty_title() {
    let mut source = StaticSource::new("");
    let mut orchestrator = started();
    assert_eq!(orchestrator.step(Event::Input(source.poll_input())), Action::Acknowledge);
    assert_eq!(orchestrator.step(Event::Acknowledged), Action::Panel(PanelCommand::Wake));
}
