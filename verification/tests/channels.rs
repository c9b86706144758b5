use std::sync::{Arc, Mutex};

use rust_swift_screencapture::display::{Display, DisplayManager, Frame};
use rust_swift_screencapture::session::{CaptureEffects, EngineCommand};
use rust_swift_screencapture::subscription::BusEvent;
use tokio::sync::{broadcast, watch};

/// The registry behind a lock, the two buses as channels, and an engine that
/// only records what it is told.
struct Hub {
    frames: watch::Sender<(u32, Frame)>,
    stops: broadcast::Sender<u32>,
    sessions: Mutex<DisplayManager>,
    engine: Mutex<Vec<EngineCommand>>,
}

impl Hub {
    fn new() -> Arc<Hub> {
        let (frames, _) = watch::channel((0, Frame::empty()));
        let (stops, _) = broadcast::channel(5);
        Arc::new(Hub {
            frames,
            stops,
            sessions: Mutex::new(DisplayManager::new()),
            engine: Mutex::new(Vec::new()),
        })
    }

    fn perform(&self, effects: CaptureEffects) {
        if let Some(command) = effects.engine {
            self.engine.lock().unwrap().push(command);
        }
        if let Some(display_id) = effects.stop_event {
            let _ = self.stops.send(display_id);
        }
    }

    fn start(&self, display: &Display, frame_rate: i32) {
        let effects = display.start_capture(&mut self.sessions.lock().unwrap(), frame_rate);
        self.perform(effects);
    }

    fn stop(&self, display: &Display) {
        let effects = display.stop_capture(&mut self.sessions.lock().unwrap());
        self.perform(effects);
    }

    fn stopped(&self, display_id: u32) {
        let effects = self.sessions.lock().unwrap().stopped(display_id);
        self.perform(effects);
    }

    fn publish(&self, display_id: u32, frame: Frame) {
        let _ = self.frames.send((display_id, frame));
    }

    fn commands(&self) -> Vec<EngineCommand> {
        self.engine.lock().unwrap().clone()
    }

    /// A private stream of the frames of one display: one task forwards what
    /// the subscription lets through, a second one ends the first when the
    /// subscription has seen the end of the capture.
    fn subscribe(&self, display: &Display) -> watch::Receiver<Frame> {
        let (tx, rx) = watch::channel(Frame::empty());
        let mut forwarding = display.subscribe_frame();
        let mut watching = forwarding;
        let mut raw_rx = self.frames.subscribe();
        let mut stop_rx = self.stops.subscribe();

        let forward = tokio::spawn(async move {
            while forwarding.is_live() {
                let event = match raw_rx.changed().await {
                    Ok(()) => {
                        let (display_id, frame) = raw_rx.borrow_and_update().clone();
                        BusEvent::Frame { display_id, frame }
                    }
                    Err(_) => BusEvent::Closed,
                };
                if let Some(frame) = forwarding.handle(event) {
                    let _ = tx.send(frame);
                    tokio::task::yield_now().await;
                }
            }
        });

        tokio::spawn(async move {
            while watching.is_live() {
                let event = match stop_rx.recv().await {
                    Ok(display_id) => BusEvent::Stopped { display_id },
                    Err(_) => BusEvent::Closed,
                };
                watching.handle(event);
            }
            forward.abort();
        });

        rx
    }
}

fn frame(tag: u8) -> Frame {
    Frame::new(4, 1, 1, &[tag, tag, tag, tag])
}

fn runtime() -> tokio::runtime::Runtime {
    tokio::runtime::Builder::new_current_thread().build().unwrap()
}

/// Lets the spawned tasks run until they all wait.
async fn settle() {
    for _ in 0..16 {
        tokio::task::yield_now().await;
    }
}

/// Waits for the next frame of a stream and returns its tag.
async fn next_tag(rx: &mut watch::Receiver<Frame>) -> u8 {
    rx.changed().await.unwrap();
    rx.borrow_and_update().bytes[0]
}

#[test]
fn stream_of_one_display_over_channels() {
    runtime().block_on(async {
        let hub = Hub::new();
        let display = Display::new(7);

        hub.start(&display, 30);
        assert_eq!(hub.commands(), vec![EngineCommand::Start { display_id: 7, frame_rate: 30 }]);

        let mut rx = hub.subscribe(&display);
        let mut seen = Vec::new();

        hub.publish(7, frame(1));
        seen.push(next_tag(&mut rx).await);
        hub.publish(7, frame(2));
        seen.push(next_tag(&mut rx).await);
        hub.publish(9, frame(99));
        settle().await;
        assert!(!rx.has_changed().unwrap());
        hub.publish(7, frame(3));
        seen.push(next_tag(&mut rx).await);
        assert_eq!(seen, vec![1, 2, 3]);

        hub.stop(&display);
        assert_eq!(
            hub.commands(),
            vec![EngineCommand::Start { display_id: 7, frame_rate: 30 }, EngineCommand::Stop]
        );
        assert!(rx.changed().await.is_err());
    });
}

#[test]
fn two_streams_reach_the_latest_frame() {
    runtime().block_on(async {
        let hub = Hub::new();
        let display = Display::new(7);
        hub.start(&display, 30);
        let mut first = hub.subscribe(&display);
        let mut second = hub.subscribe(&display);

        hub.publish(7, frame(1));
        assert_eq!(next_tag(&mut first).await, 1);
        // The second stream has not looked yet, and the bus keeps one value.
        for tag in 2..=6 {
            hub.publish(7, frame(tag));
        }
        settle().await;

        assert_eq!(next_tag(&mut first).await, 6);
        assert_eq!(next_tag(&mut second).await, 6);
        assert!(Arc::ptr_eq(&first.borrow().bytes, &second.borrow().bytes));
    });
}

#[test]
fn stop_counts_down_before_streams_end() {
    runtime().block_on(async {
        let hub = Hub::new();
        let display = Display::new(7);
        hub.start(&display, 30);
        hub.start(&display, 30);
        let mut rx = hub.subscribe(&display);

        hub.stop(&display);
        settle().await;
        hub.publish(7, frame(1));
        assert_eq!(next_tag(&mut rx).await, 1);
        assert_eq!(hub.commands().len(), 1);

        hub.stop(&display);
        assert!(rx.changed().await.is_err());
        assert_eq!(hub.commands().len(), 2);
    });
}

#[test]
fn reported_stop_ends_the_streams_of_its_display_only() {
    runtime().block_on(async {
        let hub = Hub::new();
        let seven = Display::new(7);
        let nine = Display::new(9);
        hub.start(&seven, 30);
        hub.start(&nine, 30);
        let mut first = hub.subscribe(&seven);
        let mut second = hub.subscribe(&seven);
        let mut other = hub.subscribe(&nine);

        hub.stopped(7);
        assert!(first.changed().await.is_err());
        assert!(second.changed().await.is_err());

        hub.publish(9, frame(5));
        assert_eq!(next_tag(&mut other).await, 5);
        assert_eq!(
            hub.commands(),
            vec![
                EngineCommand::Start { display_id: 7, frame_rate: 30 },
                EngineCommand::Start { display_id: 9, frame_rate: 30 },
            ]
        );
    });
}

#[test]
fn reported_stop_without_session_leaves_streams_open() {
    runtime().block_on(async {
        let hub = Hub::new();
        let display = Display::new(7);
        let mut rx = hub.subscribe(&display);

        hub.stopped(7);
        settle().await;
        assert_eq!(hub.commands(), vec![EngineCommand::Stop]);

        hub.publish(7, frame(4));
        assert_eq!(next_tag(&mut rx).await, 4);
    });
}

#[test]
fn stream_sees_no_frame_from_before_it_was_opened() {
    runtime().block_on(async {
        let hub = Hub::new();
        let display = Display::new(7);
        let keep = hub.frames.subscribe();
        hub.publish(7, frame(1));
        let mut rx = hub.subscribe(&display);
        settle().await;
        assert!(!rx.has_changed().unwrap());
        assert!(rx.borrow().bytes.is_empty());
        hub.publish(7, frame(2));
        assert_eq!(next_tag(&mut rx).await, 2);
        assert_eq!(keep.borrow().0, 7);
    });
}
