use slide_voice::pipeline::{Action, Event, Run, RunError, Stage};
use slide_voice::section::Section;
use slide_voice::voice::Data;

/// Drives a run, answering each action as `answer` says; returns the actions.
fn drive(run: &mut Run, mut answer: impl FnMut(&Action) -> Option<Event>) -> Vec<String> {
    let mut log = Vec::new();
    for _ in 0..1000 {
        let a = run.next_action();
        let entry = match &a {
            Action::Synthesize { section, content, text, .. } => format!("voice {section}.{content} {text}"),
            Action::Render { section, content, text, audio, .. } => {
                format!("clip {section}.{content} {text} {}", audio.filepath)
            }
            Action::JoinSection { section, clips } => format!("join {section} {}", clips.join(",")),
            Action::JoinAll { videos } => format!("final {}", videos.join(",")),
            Action::Finished => "finished".to_string(),
            Action::Stopped => "stopped".to_string(),
        };
        log.push(entry);
        match answer(&a) {
            Some(ev) => run.on_event(ev),
            None => break,
        }
    }
    log
}

fn succeed(a: &Action) -> Option<Event> {
    match a {
        Action::Synthesize { key, voice_id, .. } => {
            let mut d = Data::new(*voice_id, &format!("{key}.wav"));
            d.create_voice(48000);
            Some(Event::Voiced(d))
        }
        Action::Render { section, content, .. } => Some(Event::Rendered(format!("c{section}{content}.mp4"))),
        Action::JoinSection { section, .. } => Some(Event::Joined(format!("s{section}.mp4"))),
        Action::JoinAll { .. } => Some(Event::Joined("all.mp4".to_string())),
        _ => None,
    }
}

#[test]
fn run_keeps_document_order() {
    let sections = Section::create_vec("[a.png]\none\ntwo\n[b.png]\nthree\n\nfour");
    let mut run = Run::new(sections);
    let log = drive(&mut run, succeed);
    let kinds: Vec<String> = log.iter().map(|l| l.split(' ').take(2).collect::<Vec<_>>().join(" ")).collect();
    assert_eq!(
        kinds,
        vec![
            "voice 0.0", "voice 0.1", "clip 0.0", "clip 0.1", "join 0",
            "voice 1.0", "voice 1.1", "voice 1.2", "clip 1.0", "clip 1.1", "clip 1.2", "join 1",
            "final s0.mp4,s1.mp4", "finished",
        ]
    );
    assert!(log.contains(&"join 0 c00.mp4,c01.mp4".to_string()));
    assert!(log.contains(&"join 1 c10.mp4,c11.mp4,c12.mp4".to_string()));
    assert!(matches!(run.stage, Stage::Done));
    assert_eq!(run.output.as_deref(), Some("all.mp4"));
    assert_eq!(run.sections[1].video.as_deref(), Some("s1.mp4"));
    assert_eq!(run.sections[0].voices.get(&run.sections[0].contents[1].key).unwrap().duration_ms, 1000);
}

#[test]
fn synthesis_failure_stops_the_run() {
    let sections = Section::create_vec("[a.png]\na1\na2\n[b.png]\nb1\nb2\nb3\nb4\n[c.png]\nc1");
    let mut run = Run::new(sections);
    let log = drive(&mut run, |a| match a {
        Action::Synthesize { section: 1, content: 2, .. } => Some(Event::Failed("service down".to_string())),
        Action::Stopped => None,
        other => succeed(other),
    });
    assert!(matches!(run.stage, Stage::Failed));
    match &run.error {
        Some(RunError::Synthesis { section, content, reason }) => {
            assert_eq!((*section, *content), (1, 2));
            assert_eq!(reason, "service down");
        }
        _ => panic!("expected a synthesis error"),
    }
    assert_eq!(log.last().map(|s| s.as_str()), Some("stopped"));
    assert!(!log.iter().any(|l| l.starts_with("clip 1.") || l.starts_with("voice 1.3") || l.starts_with("voice 2.")));
    assert!(!log.iter().any(|l| l.starts_with("final")));
    run.on_event(Event::Joined("late.mp4".to_string()));
    assert!(matches!(run.stage, Stage::Failed));
    assert!(matches!(run.next_action(), Action::Stopped));
}

#[test]
fn missing_audio_is_skipped() {
    let sections = Section::create_vec("[a.png]\none\ntwo\nthree");
    let mut run = Run::new(sections);
    for _ in 0..3 {
        let a = run.next_action();
        let ev = succeed(&a).unwrap();
        run.on_event(ev);
    }
    assert!(matches!(run.stage, Stage::Clips));
    // take away the audio of the second line
    let key = run.sections[0].contents[1].key.clone();
    run.sections[0].voices.entries.retain(|(k, _)| *k != key);
    let log = drive(&mut run, succeed);
    assert_eq!(log[0].split(' ').take(2).collect::<Vec<_>>().join(" "), "clip 0.0");
    assert_eq!(log[1].split(' ').take(2).collect::<Vec<_>>().join(" "), "clip 0.2");
    assert_eq!(log[2], "join 0 c00.mp4,c02.mp4");
    assert!(matches!(run.stage, Stage::Done));
}

#[test]
fn empty_section_is_an_error() {
    let sections = Section::create_vec("[a.png]\nx\n[b.png]\n[c.png]\ny");
    let mut run = Run::new(sections);
    drive(&mut run, |a| if matches!(a, Action::Stopped) { None } else { succeed(a) });
    assert!(matches!(run.error, Some(RunError::EmptyContent { section: 1 })));
}

#[test]
fn render_and_join_failures_name_their_place() {
    let mut run = Run::new(Section::create_vec("[a.png]\nx\ny"));
    drive(&mut run, |a| match a {
        Action::Render { content: 1, .. } => Some(Event::Failed("ffmpeg".to_string())),
        Action::Stopped => None,
        other => succeed(other),
    });
    assert!(matches!(&run.error, Some(RunError::Render { section: 0, content: 1, .. })));

    let mut run = Run::new(Section::create_vec("[a.png]\nx"));
    drive(&mut run, |a| match a {
        Action::JoinSection { .. } => Some(Event::Failed("concat".to_string())),
        Action::Stopped => None,
        other => succeed(other),
    });
    assert!(matches!(&run.error, Some(RunError::Concat { section: 0, .. })));

    let mut run = Run::new(Section::create_vec("[a.png]\nx"));
    drive(&mut run, |a| match a {
        Action::JoinAll { .. } => Some(Event::Failed("concat".to_string())),
        Action::Stopped => None,
        other => succeed(other),
    });
    assert!(matches!(&run.error, Some(RunError::FinalConcat { .. })));
    assert!(run.output.is_none());
}

#[test]
fn empty_script_joins_nothing() {
    let mut run = Run::new(Vec::new());
    match run.next_action() {
        Action::JoinAll { videos } => assert!(videos.is_empty()),
        _ => panic!("expected the final join"),
    }
    run.on_event(Event::Joined("o.mp4".to_string()));
    assert!(matches!(run.next_action(), Action::Finished));
}

#[test]
fn failure_keeps_earlier_audio() {
    let mut run = Run::new(Section::create_vec("[a.png]\na1\na2\na3"));
    drive(&mut run, |a| match a {
        Action::Synthesize { content: 2, .. } => Some(Event::Failed("down".to_string())),
        Action::Stopped => None,
        other => succeed(other),
    });
    let s = &run.sections[0];
    assert!(s.voices.get(&s.contents[0].key).is_some());
    assert!(s.voices.get(&s.contents[1].key).is_some());
    assert!(s.voices.get(&s.contents[2].key).is_none());
    assert!(s.video.is_none());
    assert_eq!((run.section, run.content), (0, 2));
}

#[test]
fn next_section_starts_at_its_first_line() {
    let mut run = Run::new(Section::create_vec("[a.png]\nx\n[b.png]\ny1\ny2"));
    // synthesize, render and join the first section
    for _ in 0..3 {
        let a = run.next_action();
        run.on_event(succeed(&a).unwrap());
    }
    assert!(matches!(run.stage, Stage::Voices));
    assert_eq!((run.section, run.content), (1, 0));
    assert_eq!(run.sections[0].video.as_deref(), Some("s0.mp4"));
    assert_eq!(run.sections[0].filename, "a.png");
}
