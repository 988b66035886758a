use rmididings::{
    alsa_port_name, announce, choose_out_port, decode_data, decode_data_tcp, dispatch,
    dispatch_all, frame, gather, gather_pollfds, get_messages_from_packet, offer_port,
    offer_ports, osc_protocols, parse_port_spec, split_frames, unclaimed_port, Backend,
    BackendError, BackendType, ConfigArguments, Direction, ErrorKind, Event, EventStream,
    KeyFilter, NoneEvent, NoteOn, NoteOnEvent, NullBackend, OscEvent, OscMessage, OscPacket,
    OscType, Pass, PortKind, PortNum, QuitEvent, RMididings, RunArguments, Runner, Scene,
    SceneSwitchEvent, SceneSwitchOffsetEvent, SubSceneSwitchEvent, SubSceneSwitchOffsetEvent,
};
use std::cell::RefCell;
use std::rc::Rc;

#[derive(Default)]
struct Log {
    lines: Vec<String>,
    sent: Vec<Event>,
}

struct Recorder {
    scheme: &'static str,
    log: Rc<RefCell<Log>>,
    ready: Vec<Event>,
    bytes: u32,
    fail_on_output: bool,
}

impl Recorder {
    fn new(scheme: &'static str, log: &Rc<RefCell<Log>>) -> Recorder {
        Recorder { scheme, log: log.clone(), ready: vec![], bytes: 3, fail_on_output: false }
    }

    fn note(&self, line: String) {
        self.log.borrow_mut().lines.push(format!("{}: {}", self.scheme, line));
    }
}

impl Backend for Recorder {
    fn set_client_name(&mut self, name: &str) -> Result<(), BackendError> {
        self.note(format!("name {}", name));
        Ok(())
    }

    fn create_in_port(&mut self, port: PortNum, name: &str) -> Result<bool, BackendError> {
        let mine = name.starts_with(self.scheme);
        if mine {
            self.note(format!("in {} {}", port, name));
        }
        Ok(mine)
    }

    fn create_out_port(&mut self, port: PortNum, name: &str) -> Result<bool, BackendError> {
        let mine = name.starts_with(self.scheme);
        if mine {
            self.note(format!("out {} {}", port, name));
        }
        Ok(mine)
    }

    fn connect_in_port(&mut self, port: PortNum, name: &str) -> Result<bool, BackendError> {
        self.note(format!("connect in {} {}", port, name));
        Ok(true)
    }

    fn connect_out_port(&mut self, port: PortNum, name: &str) -> Result<bool, BackendError> {
        self.note(format!("connect out {} {}", port, name));
        Ok(true)
    }

    fn get_pollfds(&mut self) -> Result<Vec<libc::pollfd>, BackendError> {
        Ok(vec![libc::pollfd { fd: self.bytes as i32, events: 1, revents: 0 }])
    }

    fn run(&mut self) -> Result<EventStream, BackendError> {
        let ready: Vec<Event> = self.ready.drain(..).collect();
        Ok(EventStream::from(ready))
    }

    fn output_event(&mut self, ev: &Event) -> Result<u32, BackendError> {
        if self.fail_on_output {
            return Err(BackendError { kind: ErrorKind::Transport, message: "closed".to_string() });
        }
        if self.bytes > 0 {
            self.log.borrow_mut().sent.push(ev.clone());
        }
        Ok(self.bytes)
    }
}

fn port(name: &str, peer: &str) -> (String, String) {
    (name.to_string(), peer.to_string())
}

#[test]
fn port_names_are_taken_apart_at_the_first_colon() {
    let spec = parse_port_spec("input");
    assert_eq!(spec.kind, PortKind::Bare);
    assert_eq!(spec.name, "input");
    let spec = parse_port_spec("alsa:client:port");
    assert_eq!(spec.kind, PortKind::Alsa);
    assert_eq!(spec.name, "client:port");
    let spec = parse_port_spec("osc:127.0.0.1:22852");
    assert_eq!(spec.kind, PortKind::Osc);
    assert_eq!(spec.name, "127.0.0.1:22852");
    let spec = parse_port_spec("osc.udp://localhost:56418");
    assert_eq!(spec.kind, PortKind::OscUdp);
    assert_eq!(spec.name, "localhost:56418");
    let spec = parse_port_spec("osc.tcp:");
    assert_eq!(spec.kind, PortKind::OscTcp);
    assert_eq!(spec.name, "");
    let spec = parse_port_spec("null:anything");
    assert_eq!(spec.kind, PortKind::Null);
    assert_eq!(spec.name, "anything");
    let spec = parse_port_spec("jack://x");
    assert_eq!(spec.kind, PortKind::Other);
    assert_eq!(spec.name, "//x");
    let spec = parse_port_spec("alsa://x");
    assert_eq!(spec.kind, PortKind::Alsa);
    assert_eq!(spec.name, "//x");
    let spec = parse_port_spec("");
    assert_eq!(spec.kind, PortKind::Bare);
    assert_eq!(spec.name, "");
    let spec = parse_port_spec(":x");
    assert_eq!(spec.kind, PortKind::Other);
    assert_eq!(spec.name, "x");
}

#[test]
fn null_backend_takes_bare_and_null_ports() {
    let mut b = NullBackend::new().unwrap();
    assert!(b.create_in_port(0, "input").unwrap());
    assert!(b.create_in_port(1, "null:whatever").unwrap());
    assert!(!b.create_in_port(2, "osc:localhost:1").unwrap());
    assert!(!b.create_in_port(2, "alsa:x").unwrap());
    assert!(b.create_out_port(0, "output").unwrap());
    assert!(b.create_out_port(1, "null:").unwrap());
    assert!(!b.create_out_port(2, "osc.tcp:localhost:1").unwrap());
    assert!(NullBackend::claims("x"));
    assert!(!NullBackend::claims("nul:x"));
}

#[test]
fn null_backend_does_nothing() {
    let mut b = NullBackend::new().unwrap();
    assert!(b.set_client_name("x").is_ok());
    assert!(!b.connect_in_port(0, "a:b").unwrap());
    assert!(!b.connect_out_port(0, "a:b").unwrap());
    assert!(b.get_pollfds().unwrap().is_empty());
    assert!(b.run().unwrap().is_empty());
    assert_eq!(b.output_event(&NoteOnEvent(0, 0, 1, 1)).unwrap(), 0);
}

#[test]
fn ports_go_to_the_first_transport_that_takes_them() {
    let log = Rc::new(RefCell::new(Log::default()));
    let mut backends: Vec<Box<dyn Backend>> = vec![
        Box::new(Recorder::new("a", &log)),
        Box::new(Recorder::new("ab", &log)),
        Box::new(NullBackend::new().unwrap()),
    ];
    assert_eq!(offer_port(&mut backends, Direction::In, 0, "abc", "peer").unwrap(), Some(0));
    assert_eq!(offer_port(&mut backends, Direction::Out, 1, "b", "x").unwrap(), Some(2));
    assert_eq!(offer_port(&mut backends, Direction::Out, 2, "osc:x", "y").unwrap(), None);
    assert_eq!(
        log.borrow().lines,
        vec!["a: in 0 abc".to_string(), "a: connect in 0 peer".to_string()]
    );
}

#[test]
fn config_names_clients_and_offers_ports_in_order() {
    let log = Rc::new(RefCell::new(Log::default()));
    let backends: Vec<Box<dyn Backend>> =
        vec![Box::new(Recorder::new("midi", &log)), Box::new(Recorder::new("osc", &log))];
    let mut md = RMididings::new().unwrap();
    let args = ConfigArguments {
        client_name: "Demo".to_string(),
        in_ports: vec![port("midi in", "kbd:out"), port("osc:1", "")],
        out_ports: vec![port("osc:2", "host:9"), port("midi out", "")],
        data_offset: 0,
        ..ConfigArguments::default()
    };
    md.config(args, backends).unwrap();
    assert_eq!(
        log.borrow().lines,
        vec![
            "midi: name Demo",
            "osc: name Demo",
            "midi: in 0 midi in",
            "midi: connect in 0 kbd:out",
            "osc: in 1 osc:1",
            "osc: connect in 1 ",
            "osc: out 0 osc:2",
            "osc: connect out 0 host:9",
            "midi: out 1 midi out",
            "midi: connect out 1 ",
        ]
    );
    let fds = md.get_pollfds().unwrap();
    assert_eq!(fds.len(), 2);
    assert_eq!((fds[0].fd, fds[0].events, fds[0].revents), (3, 1, 0));
}

#[test]
fn config_fails_on_a_port_that_no_transport_takes() {
    let log = Rc::new(RefCell::new(Log::default()));
    let backends: Vec<Box<dyn Backend>> =
        vec![Box::new(Recorder::new("midi", &log)), Box::new(Recorder::new("osc", &log))];
    let mut md = RMididings::new().unwrap();
    let args = ConfigArguments {
        in_ports: vec![port("midi in", ""), port("nowhere", "x"), port("osc:1", "")],
        data_offset: 7,
        ..ConfigArguments::default()
    };
    let err = md.config(args, backends).unwrap_err();
    assert_eq!(err.kind, ErrorKind::Configuration);
    assert_eq!(err.message, "no transport takes the port");
    assert_eq!(
        log.borrow().lines,
        vec![
            "midi: name RMididings",
            "osc: name RMididings",
            "midi: in 0 midi in",
            "midi: connect in 0 ",
        ]
    );
    let mut md = RMididings::new().unwrap();
    let args = ConfigArguments {
        out_ports: vec![port("jack:x", "")],
        ..ConfigArguments::default()
    };
    let err = md.config(args, vec![Box::new(NullBackend::new().unwrap())]).unwrap_err();
    assert_eq!(err.kind, ErrorKind::Configuration);
}

#[test]
fn without_transports_nothing_is_read_or_sent() {
    let mut none: Vec<Box<dyn Backend>> = vec![];
    assert_eq!(dispatch(&mut none, &NoteOnEvent(0, 0, 1, 1)).unwrap(), 0);
    assert!(gather(&mut none).unwrap().is_empty());
    assert_eq!(offer_port(&mut none, Direction::In, 0, "input", "").unwrap(), None);
    let mut md = RMididings::new().unwrap();
    md.config(ConfigArguments::default(), vec![]).unwrap();
    assert!(md.get_pollfds().unwrap().is_empty());
    let mut runner = md.runner(RunArguments { patch: Pass().into(), ..RunArguments::default() });
    md.begin(&mut runner).unwrap();
    assert!(md.run_once(&mut runner).unwrap().is_empty());
    assert!(runner.is_running());
    let args = ConfigArguments { in_ports: vec![port("input", "")], ..ConfigArguments::default() };
    assert_eq!(md.config(args, vec![]).unwrap_err().kind, ErrorKind::Configuration);
}

#[test]
fn default_config() {
    let args = ConfigArguments::default();
    assert_eq!(args.backend, BackendType::Alsa);
    assert_eq!(args.client_name, "RMididings");
    assert!(args.in_ports.is_empty());
    assert!(args.out_ports.is_empty());
    assert_eq!(args.data_offset, 1);
    assert_eq!(args.scene_offset, 1);
    assert_eq!(args.initial_scene, 0);
    assert_eq!(args.start_delay_ms, 0);
}

#[test]
fn engine_hands_its_offsets_to_the_runner() {
    let mut md = RMididings::new().unwrap();
    let mut runner = md.runner(RunArguments { patch: Pass().into(), ..RunArguments::default() });
    runner.start();
    let mut ev = NoteOnEvent(0, 0, 1, 1);
    runner.backend_event_to_user(&mut ev);
    assert_eq!(ev, NoteOnEvent(1, 1, 1, 1));
    md.config(
        ConfigArguments { data_offset: 4, ..ConfigArguments::default() },
        vec![Box::new(NullBackend::new().unwrap())],
    )
    .unwrap();
    let runner = md.runner(RunArguments::default());
    let mut ev = NoteOnEvent(0, 0, 1, 1);
    runner.backend_event_to_user(&mut ev);
    assert_eq!(ev, NoteOnEvent(4, 4, 1, 1));
}

#[test]
fn events_go_to_the_first_transport_that_sends_them() {
    let log = Rc::new(RefCell::new(Log::default()));
    let mut silent = Recorder::new("a", &log);
    silent.bytes = 0;
    let mut second = Recorder::new("b", &log);
    second.bytes = 7;
    let third = Recorder::new("c", &log);
    let mut backends: Vec<Box<dyn Backend>> =
        vec![Box::new(silent), Box::new(second), Box::new(third)];
    assert_eq!(dispatch(&mut backends, &NoteOnEvent(0, 0, 1, 1)).unwrap(), 7);
    assert_eq!(log.borrow().sent, vec![NoteOnEvent(0, 0, 1, 1)]);
    let mut none: Vec<Box<dyn Backend>> = vec![Box::new(NullBackend::new().unwrap())];
    assert_eq!(dispatch(&mut none, &NoteOnEvent(0, 0, 1, 1)).unwrap(), 0);
}

#[test]
fn dispatch_reports_the_error_of_a_transport() {
    let log = Rc::new(RefCell::new(Log::default()));
    let mut broken = Recorder::new("a", &log);
    broken.fail_on_output = true;
    let mut backends: Vec<Box<dyn Backend>> = vec![Box::new(broken)];
    let err = dispatch(&mut backends, &NoteOnEvent(0, 0, 1, 1)).unwrap_err();
    assert_eq!(err.message, "closed");
    assert_eq!(err.kind, ErrorKind::Transport);
}

#[test]
fn gather_reads_transports_in_order() {
    let log = Rc::new(RefCell::new(Log::default()));
    let mut a = Recorder::new("a", &log);
    a.ready = vec![NoteOnEvent(0, 0, 1, 1), NoteOnEvent(0, 0, 2, 2)];
    let mut b = Recorder::new("b", &log);
    b.ready = vec![QuitEvent()];
    let mut backends: Vec<Box<dyn Backend>> = vec![Box::new(a), Box::new(b)];
    assert_eq!(
        gather(&mut backends).unwrap(),
        vec![NoteOnEvent(0, 0, 1, 1), NoteOnEvent(0, 0, 2, 2), QuitEvent()]
    );
    assert!(gather(&mut backends).unwrap().is_empty());
}

#[test]
fn one_turn_of_the_main_loop() {
    let log = Rc::new(RefCell::new(Log::default()));
    let mut a = Recorder::new("a", &log);
    a.ready = vec![NoteOnEvent(0, 0, 60, 1), NoteOnEvent(0, 0, 61, 1), QuitEvent()];
    let mut md = RMididings::new().unwrap();
    md.config(ConfigArguments::default(), vec![Box::new(a)]).unwrap();
    let mut runner = md.runner(RunArguments {
        patch: KeyFilter(61).into(),
        control: Pass().into(),
        ..RunArguments::default()
    });
    md.begin(&mut runner).unwrap();
    assert!(runner.is_running());
    assert_eq!(log.borrow().sent, vec![NoneEvent()]);
    let read = md.run_once(&mut runner).unwrap();
    assert_eq!(read.len(), 3);
    assert_eq!(log.borrow().sent, vec![NoneEvent(), NoteOnEvent(0, 0, 61, 1)]);
    assert!(!runner.is_running());
}

#[test]
fn a_turn_ends_at_the_error_of_a_transport() {
    let log = Rc::new(RefCell::new(Log::default()));
    let mut a = Recorder::new("a", &log);
    a.ready = vec![NoteOnEvent(0, 0, 61, 1)];
    a.fail_on_output = true;
    let mut md = RMididings::new().unwrap();
    md.config(ConfigArguments::default(), vec![Box::new(a)]).unwrap();
    let mut runner = md.runner(RunArguments {
        patch: rmididings::TypeFilter(rmididings::EventType::Note).into(),
        control: Pass().into(),
        pre: Pass().into(),
        ..RunArguments::default()
    });
    assert_eq!(md.begin(&mut runner).unwrap_err().message, "closed");
    let mut runner = md.runner(RunArguments {
        patch: Pass().into(),
        control: Pass().into(),
        ..RunArguments::default()
    });
    assert_eq!(md.run_once(&mut runner).unwrap_err().message, "closed");
}

fn two_scenes() -> Vec<Scene> {
    let marker = |n: u8| -> rmididings::Patch {
        rmididings::Chain(vec![
            NoteOn(n, n).into(),
            rmididings::TypeFilter(rmididings::EventType::Note).into(),
        ])
        .into()
    };
    vec![
        Scene { name: "One".to_string(), patch: Pass().into(), ..Scene::default() },
        Scene {
            name: "Two".to_string(),
            patch: Pass().into(),
            init: marker(7),
            subscenes: vec![
                Scene { name: "a".to_string(), patch: Pass().into(), ..Scene::default() },
                Scene {
                    name: "b".to_string(),
                    patch: Pass().into(),
                    init: marker(9),
                    ..Scene::default()
                },
            ],
            ..Scene::default()
        },
    ]
}

fn recorders(log: &Rc<RefCell<Log>>) -> Vec<Box<dyn Backend>> {
    let mut silent = Recorder::new("a", log);
    silent.bytes = 0;
    let mut second = Recorder::new("b", log);
    second.bytes = 7;
    vec![Box::new(silent), Box::new(second), Box::new(Recorder::new("c", log))]
}

fn notes_sent(log: &Rc<RefCell<Log>>) -> Vec<Event> {
    log.borrow().sent.iter().filter(|ev| **ev != NoneEvent()).cloned().collect()
}

#[test]
fn output_event_switches_scenes() {
    let log = Rc::new(RefCell::new(Log::default()));
    let mut backends = recorders(&log);
    let args = RunArguments { scenes: two_scenes(), ..RunArguments::default() };
    let mut runner = Runner::new(args, 1, 1, 1, 0);
    runner.start();
    assert_eq!(runner.current_scene_num(), Some(0));

    assert_eq!(runner.output_event(&SceneSwitchEvent(2), &mut backends).unwrap(), 0);
    assert_eq!(runner.current_scene_num(), Some(1));
    assert_eq!(runner.current_subscene_num(), Some(0));
    assert_eq!(notes_sent(&log), vec![NoteOnEvent(0, 0, 7, 7)]);

    assert_eq!(runner.output_event(&SceneSwitchEvent(2), &mut backends).unwrap(), 0);
    assert_eq!(runner.output_event(&SceneSwitchEvent(3), &mut backends).unwrap(), 0);
    assert_eq!(runner.output_event(&SceneSwitchOffsetEvent(1), &mut backends).unwrap(), 0);
    assert_eq!(runner.current_scene_num(), Some(1));
    assert_eq!(notes_sent(&log), vec![NoteOnEvent(0, 0, 7, 7)]);

    assert_eq!(runner.output_event(&SceneSwitchOffsetEvent(-1), &mut backends).unwrap(), 0);
    assert_eq!(runner.current_scene_num(), Some(0));
    assert_eq!(runner.current_subscene_num(), None);
    assert!(runner.is_running());
}

#[test]
fn output_event_enters_a_scene_before_the_start() {
    let args = RunArguments {
        scenes: vec![
            Scene { name: "Run".to_string(), patch: Pass().into(), ..Scene::default() },
            Scene {
                name: "Pause".to_string(),
                patch: rmididings::Discard().into(),
                ..Scene::default()
            },
        ],
        ..RunArguments::default()
    };
    let mut backends: Vec<Box<dyn Backend>> = vec![Box::new(NullBackend::new().unwrap())];
    let mut runner = Runner::new(args, 1, 1, 1, 0);
    assert_eq!(runner.output_event(&SceneSwitchEvent(2), &mut backends).unwrap(), 0);
    assert_eq!(runner.current_scene_num(), Some(1));
    assert_eq!(runner.current_subscene_num(), None);
    assert!(!runner.is_running());
    let mut none: Vec<Box<dyn Backend>> = vec![];
    assert_eq!(runner.output_event(&SceneSwitchEvent(1), &mut none).unwrap(), 0);
    assert_eq!(runner.current_scene_num(), Some(0));
}

#[test]
fn output_event_switches_subscenes() {
    let log = Rc::new(RefCell::new(Log::default()));
    let mut backends = recorders(&log);
    let args = RunArguments { scenes: two_scenes(), ..RunArguments::default() };
    let mut runner = Runner::new(args, 1, 1, 1, 1);
    runner.start();
    assert_eq!(runner.current_subscene_num(), Some(0));
    log.borrow_mut().sent.clear();

    assert_eq!(runner.output_event(&SubSceneSwitchEvent(2), &mut backends).unwrap(), 0);
    assert_eq!(runner.current_scene_num(), Some(1));
    assert_eq!(runner.current_subscene_num(), Some(1));
    assert_eq!(runner.get_stored_subscene_num(), Some(1));
    assert_eq!(log.borrow().sent, vec![NoneEvent(), NoteOnEvent(0, 0, 9, 9), NoneEvent()]);

    assert_eq!(runner.output_event(&SubSceneSwitchOffsetEvent(1), &mut backends).unwrap(), 0);
    assert_eq!(runner.current_subscene_num(), Some(1));
    assert_eq!(runner.output_event(&SubSceneSwitchOffsetEvent(-1), &mut backends).unwrap(), 0);
    assert_eq!(runner.current_subscene_num(), Some(0));
    assert_eq!(runner.output_event(&SubSceneSwitchEvent(5), &mut backends).unwrap(), 0);
    assert_eq!(runner.current_subscene_num(), Some(0));
}

#[test]
fn output_event_heeds_a_quit_signal() {
    let log = Rc::new(RefCell::new(Log::default()));
    let mut backends = recorders(&log);
    let args = RunArguments { scenes: two_scenes(), ..RunArguments::default() };
    let mut runner = Runner::new(args, 1, 1, 1, 1);
    runner.start();
    log.borrow_mut().sent.clear();
    assert!(runner.is_running());
    assert_eq!(runner.output_event(&QuitEvent(), &mut backends).unwrap(), 0);
    assert!(!runner.is_running());
    assert_eq!(runner.current_scene_num(), Some(1));
    assert_eq!(runner.current_subscene_num(), Some(0));
    assert!(log.borrow().sent.is_empty());
    let mut broken = Recorder::new("a", &log);
    broken.fail_on_output = true;
    let mut backends: Vec<Box<dyn Backend>> = vec![Box::new(broken)];
    assert_eq!(runner.output_event(&QuitEvent(), &mut backends).unwrap(), 0);
}

#[test]
fn output_event_sends_what_is_no_signal() {
    let log = Rc::new(RefCell::new(Log::default()));
    let mut backends = recorders(&log);
    let mut runner = Runner::new(RunArguments::default(), 1, 2, 1, 0);
    assert_eq!(runner.output_event(&NoteOnEvent(1, 2, 60, 1), &mut backends).unwrap(), 7);
    assert_eq!(runner.output_event(&NoneEvent(), &mut backends).unwrap(), 7);
    assert_eq!(
        runner.output_event(&OscEvent(0, "/a".to_string(), vec![]), &mut backends).unwrap(),
        7
    );
    assert_eq!(
        log.borrow().sent,
        vec![NoteOnEvent(0, 0, 60, 1), NoneEvent(), OscEvent(0, "/a".to_string(), vec![])]
    );
    assert!(!runner.is_running());
    assert_eq!(runner.current_scene_num(), None);
    let mut none: Vec<Box<dyn Backend>> = vec![Box::new(NullBackend::new().unwrap())];
    assert_eq!(runner.output_event(&NoteOnEvent(1, 2, 60, 1), &mut none).unwrap(), 0);
    let mut broken = Recorder::new("a", &log);
    broken.fail_on_output = true;
    let mut backends: Vec<Box<dyn Backend>> = vec![Box::new(broken)];
    let err = runner.output_event(&NoteOnEvent(1, 2, 60, 1), &mut backends).unwrap_err();
    assert_eq!(err.message, "closed");
    let err = runner.output_event(&SceneSwitchEvent(1), &mut backends);
    assert_eq!(err.unwrap(), 0);
}

#[test]
fn dispatch_all_stops_at_the_first_error() {
    let log = Rc::new(RefCell::new(Log::default()));
    let mut backends = recorders(&log);
    let events = EventStream::from(vec![NoteOnEvent(0, 0, 1, 1), NoneEvent(), QuitEvent()]);
    dispatch_all(&mut backends, &events).unwrap();
    assert_eq!(log.borrow().sent, vec![NoteOnEvent(0, 0, 1, 1), NoneEvent(), QuitEvent()]);
    let mut broken = Recorder::new("a", &log);
    broken.fail_on_output = true;
    let mut backends: Vec<Box<dyn Backend>> = vec![Box::new(Recorder::new("z", &log)), Box::new(broken)];
    dispatch_all(&mut backends, &events).unwrap();
    assert_eq!(log.borrow().sent.len(), 6);
    backends.swap(0, 1);
    assert_eq!(dispatch_all(&mut backends, &events).unwrap_err().message, "closed");
    assert_eq!(log.borrow().sent.len(), 6);
    dispatch_all(&mut backends, &EventStream::empty()).unwrap();
}

#[test]
fn the_name_is_announced_to_every_transport() {
    let log = Rc::new(RefCell::new(Log::default()));
    let mut backends = recorders(&log);
    announce(&mut backends, "Demo").unwrap();
    assert_eq!(log.borrow().lines, vec!["a: name Demo", "b: name Demo", "c: name Demo"]);
    let mut none: Vec<Box<dyn Backend>> = vec![];
    announce(&mut none, "Demo").unwrap();
}

#[test]
fn ports_are_offered_in_order_up_to_one_that_nobody_takes() {
    let log = Rc::new(RefCell::new(Log::default()));
    let mut backends = recorders(&log);
    let ports = vec![port("b:1", "x"), port("c:2", ""), port("a:3", "y")];
    offer_ports(&mut backends, Direction::Out, &ports).unwrap();
    assert_eq!(
        log.borrow().lines,
        vec![
            "b: out 0 b:1",
            "b: connect out 0 x",
            "c: out 1 c:2",
            "c: connect out 1 ",
            "a: out 2 a:3",
            "a: connect out 2 y",
        ]
    );
    log.borrow_mut().lines.clear();
    let ports = vec![port("c:1", "x"), port("d:2", ""), port("a:3", "y")];
    let err = offer_ports(&mut backends, Direction::In, &ports).unwrap_err();
    assert_eq!(err.kind, ErrorKind::Configuration);
    assert_eq!(err.message, unclaimed_port().message);
    assert_eq!(unclaimed_port().kind, ErrorKind::Configuration);
    assert_eq!(log.borrow().lines, vec!["c: in 0 c:1", "c: connect in 0 x"]);
    offer_ports(&mut backends, Direction::In, &vec![]).unwrap();
}

#[test]
fn poll_descriptors_come_in_the_order_of_the_transports() {
    let log = Rc::new(RefCell::new(Log::default()));
    let mut backends = recorders(&log);
    backends.insert(1, Box::new(NullBackend::new().unwrap()));
    let fds = gather_pollfds(&mut backends).unwrap();
    assert_eq!(fds.iter().map(|fd| fd.fd).collect::<Vec<i32>>(), vec![0, 7, 3]);
    let mut none: Vec<Box<dyn Backend>> = vec![];
    assert!(gather_pollfds(&mut none).unwrap().is_empty());
}

#[test]
fn osc_ports_go_over_udp_or_tcp_or_both() {
    assert_eq!(osc_protocols(PortKind::Osc), Some((true, true)));
    assert_eq!(osc_protocols(PortKind::OscUdp), Some((true, false)));
    assert_eq!(osc_protocols(PortKind::OscTcp), Some((false, true)));
    assert_eq!(osc_protocols(PortKind::Bare), None);
    assert_eq!(osc_protocols(PortKind::Alsa), None);
    assert_eq!(osc_protocols(PortKind::Null), None);
    assert_eq!(osc_protocols(parse_port_spec("osc.udp:localhost:9000").kind), Some((true, false)));
}

#[test]
fn sequencer_ports_are_bare_names_and_names_with_their_scheme() {
    assert_eq!(alsa_port_name("input"), Some("input".to_string()));
    assert_eq!(alsa_port_name("alsa:Virtual Keyboard:0"), Some("Virtual Keyboard:0".to_string()));
    assert_eq!(alsa_port_name("alsa:"), Some("".to_string()));
    assert_eq!(alsa_port_name(""), Some("".to_string()));
    assert_eq!(alsa_port_name("osc:localhost:9000"), None);
    assert_eq!(alsa_port_name("osc.tcp:localhost:9000"), None);
    assert_eq!(alsa_port_name("null:x"), None);
}

#[test]
fn a_malformed_packet_gives_no_events() {
    let m = |addr: &str| OscPacket::Message(OscMessage { addr: addr.to_string(), args: vec![] });
    assert!(decode_data(&None).is_empty());
    assert_eq!(decode_data(&Some(m("/a"))), OscEvent(0, "/a".to_string(), vec![]));
    let bundle = OscPacket::Bundle { seconds: 0, fractional: 0, content: vec![m("/b"), m("/c")] };
    let frames = vec![Some(m("/a")), None, Some(bundle), None];
    assert_eq!(
        decode_data_tcp(&frames),
        vec![
            OscEvent(0, "/a".to_string(), vec![]),
            OscEvent(0, "/b".to_string(), vec![]),
            OscEvent(0, "/c".to_string(), vec![]),
        ]
    );
    assert!(decode_data_tcp(&vec![]).is_empty());
    assert!(decode_data_tcp(&vec![None, None]).is_empty());
}

#[test]
fn frame_puts_the_length_in_front() {
    assert_eq!(frame(&[]).unwrap(), vec![0, 0, 0, 0]);
    assert_eq!(frame(&[9, 8, 7]).unwrap(), vec![0, 0, 0, 3, 9, 8, 7]);
    let long = vec![1u8; 0x1_02_03];
    let framed = frame(&long).unwrap();
    assert_eq!(&framed[..4], &[0, 1, 2, 3]);
    assert_eq!(framed.len(), long.len() + 4);
}

#[test]
fn split_frames_reads_whole_frames() {
    assert_eq!(split_frames(&[]), Vec::<Vec<u8>>::new());
    assert_eq!(split_frames(&[0, 0, 0]), Vec::<Vec<u8>>::new());
    assert_eq!(split_frames(&[0, 0, 0, 0]), vec![Vec::<u8>::new()]);
    assert_eq!(split_frames(&[0, 0, 0, 2, 5, 6]), vec![vec![5, 6]]);
    assert_eq!(
        split_frames(&[0, 0, 0, 2, 5, 6, 0, 0, 0, 1, 7, 0, 0, 0, 0]),
        vec![vec![5, 6], vec![7], vec![]]
    );
}

#[test]
fn split_frames_stops_at_a_frame_that_is_not_whole() {
    assert_eq!(split_frames(&[0, 0, 0, 3, 5, 6]), Vec::<Vec<u8>>::new());
    assert_eq!(split_frames(&[0, 0, 0, 1, 5, 0, 0, 0, 9, 1]), vec![vec![5]]);
    assert_eq!(split_frames(&[0, 0, 0, 1, 5, 0, 0]), vec![vec![5]]);
    assert_eq!(split_frames(&[255, 255, 255, 255, 1, 2]), Vec::<Vec<u8>>::new());
    assert_eq!(split_frames(&[128, 0, 0, 0, 1, 2]), Vec::<Vec<u8>>::new());
}

#[test]
fn frames_are_read_back() {
    let a = vec![1u8, 2, 3];
    let b: Vec<u8> = (0..300).map(|i| (i % 251) as u8).collect();
    let mut data = frame(&a).unwrap();
    data.extend(frame(&b).unwrap());
    data.extend(frame(&[]).unwrap());
    assert_eq!(split_frames(&data), vec![a, b, vec![]]);
}

#[test]
fn bundles_are_opened_to_any_depth() {
    let m = |addr: &str, n: i32| {
        OscPacket::Message(OscMessage { addr: addr.to_string(), args: vec![OscType::Int(n)] })
    };
    let packet = OscPacket::Bundle {
        seconds: 1,
        fractional: 2,
        content: vec![
            m("/a", 1),
            OscPacket::Bundle {
                seconds: 0,
                fractional: 0,
                content: vec![
                    m("/b", 2),
                    OscPacket::Bundle { seconds: 0, fractional: 0, content: vec![] },
                    m("/c", 3),
                ],
            },
            m("/d", 4),
        ],
    };
    assert_eq!(
        get_messages_from_packet(&packet),
        vec![
            OscEvent(0, "/a".to_string(), vec![OscType::Int(1)]),
            OscEvent(0, "/b".to_string(), vec![OscType::Int(2)]),
            OscEvent(0, "/c".to_string(), vec![OscType::Int(3)]),
            OscEvent(0, "/d".to_string(), vec![OscType::Int(4)]),
        ]
    );
    assert_eq!(
        get_messages_from_packet(&m("/x", 0)),
        OscEvent(0, "/x".to_string(), vec![OscType::Int(0)])
    );
    let message = OscMessage { addr: "/y".to_string(), args: vec![] };
    assert_eq!(message.to_event(), OscEvent(0, "/y".to_string(), vec![]));
}

#[test]
fn osc_messages_leave_by_the_only_port_or_by_their_own() {
    assert_eq!(choose_out_port(5, &vec![2]), Some(2));
    assert_eq!(choose_out_port(2, &vec![2]), Some(2));
    assert_eq!(choose_out_port(5, &vec![2, 5]), Some(5));
    assert_eq!(choose_out_port(3, &vec![2, 5]), None);
    assert_eq!(choose_out_port(3, &vec![]), None);
}
