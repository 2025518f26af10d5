use maple::audio::ListenerPlan;
use maple::audio::{
    deferred_sound_method, AudioLoadError, AudioLoader, AudioPlugin, DeferredCommands, QueuedAudio, SoundCommand,
    StreamedAudio,
};

#[test]
fn streamed_audio_keeps_its_path() {
    let a = StreamedAudio::new("assets/music.ogg");
    assert_eq!(a.path, "assets/music.ogg");
}

#[test]
fn streamed_audio_needs_an_existing_file() {
    assert_eq!(StreamedAudio::new("a.ogg").into_asset(true), Ok("a.ogg".to_string()));
    assert_eq!(StreamedAudio::new("missing.ogg").into_asset(false), Err(AudioLoadError::Missing));
    let _loader = AudioLoader;
}

#[test]
fn queue_plays_loaded_and_keeps_waiting_sounds() {
    let queue = vec!["a", "b", "c", "d", "e"];
    let status = vec![
        QueuedAudio::Static,
        QueuedAudio::NotLoaded,
        QueuedAudio::Streaming,
        QueuedAudio::Static,
        QueuedAudio::NotLoaded,
    ];
    let (play, requeue) = AudioPlugin::process_queue(queue, &status);
    assert_eq!(play, vec!["a", "d"]);
    assert_eq!(requeue, vec!["b", "e"]);
}

#[test]
fn empty_queue() {
    let (play, requeue) = AudioPlugin::process_queue(Vec::<u8>::new(), &vec![]);
    assert!(play.is_empty() && requeue.is_empty());
}

#[test]
fn listener_with_greatest_priority() {
    assert_eq!(AudioPlugin::active_listener(&vec![]), None);
    assert_eq!(AudioPlugin::active_listener(&vec![-5]), Some(0));
    assert_eq!(AudioPlugin::active_listener(&vec![1, 7, 3, 7, 2]), Some(3));
}

#[test]
fn commands_wait_until_the_sound_starts() {
    let mut d = DeferredCommands::new();
    assert_eq!(d.submit(SoundCommand::SetVolume), None);
    assert_eq!(d.submit(SoundCommand::Pause), None);
    assert_eq!(d.submit(SoundCommand::Resume), None);
    assert_eq!(d.go_live(), vec![SoundCommand::SetVolume, SoundCommand::Pause, SoundCommand::Resume]);
    assert_eq!(d.submit(SoundCommand::Stop), Some(SoundCommand::Stop));
    assert!(d.go_live().is_empty());
    assert_eq!(d.submit(SoundCommand::ResumeAt), Some(SoundCommand::ResumeAt));
}

#[test]
fn waiting_commands_are_replayed_as_issued() {
    assert_eq!(deferred_sound_method(SoundCommand::Resume), SoundCommand::Resume);
    for c in [
        SoundCommand::SetVolume,
        SoundCommand::SetPlaybackRate,
        SoundCommand::SetPanning,
        SoundCommand::SetLoopRegion,
        SoundCommand::Pause,
        SoundCommand::ResumeAt,
        SoundCommand::Stop,
    ] {
        assert_eq!(deferred_sound_method(c), c);
    }
}

#[test]
fn live_sound_applies_commands_at_once() {
    let mut d: DeferredCommands<u8> = DeferredCommands::new();
    assert!(d.go_live().is_empty());
    assert_eq!(d.submit(3), Some(3));
    assert_eq!(d.submit(4), Some(4));
}

#[test]
fn listener_plan_by_scene() {
    assert_eq!(
        AudioPlugin::listener_plan(&vec![], true),
        ListenerPlan { active: None, create: false, update_sources: false }
    );
    assert_eq!(
        AudioPlugin::listener_plan(&vec![2, 9, 1], false),
        ListenerPlan { active: Some(1), create: true, update_sources: true }
    );
    assert_eq!(
        AudioPlugin::listener_plan(&vec![3, 3], true),
        ListenerPlan { active: Some(1), create: false, update_sources: true }
    );
}

#[test]
fn audio_frame_update() {
    let status = vec![QueuedAudio::Static, QueuedAudio::NotLoaded, QueuedAudio::Streaming];
    let u = AudioPlugin::update(vec!['a', 'b', 'c'], &status, &vec![], true);
    assert_eq!(u.play, vec!['a']);
    assert_eq!(u.requeue, vec!['b']);
    assert_eq!(u.listener, ListenerPlan { active: None, create: false, update_sources: false });
    assert!(!u.keeps_listener);
    let u = AudioPlugin::update(vec![1u8], &vec![QueuedAudio::NotLoaded], &vec![4, 4], false);
    assert_eq!(u.requeue, vec![1]);
    assert_eq!(u.listener.active, Some(1));
    assert!(u.listener.create && u.keeps_listener);
}
