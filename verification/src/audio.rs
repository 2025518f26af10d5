//! Audio playback bookkeeping: queued sounds waiting for their assets,
//! commands issued before a sound has started, and the active listener.
use vstd::prelude::*;
use crate::render_order::{is_last_max, last_max_priority};

verus! {

// ---------------------------------------------------------------- assets

/// A reference to an audio file to be streamed from disk.
pub struct StreamedAudio {
    pub path: String,
}

/// Why an audio asset could not be produced.
#[derive(Clone, Copy, Debug, PartialEq, Eq, Structural)]
pub enum AudioLoadError {
    /// the file does not exist
    Missing,
}

impl StreamedAudio {
    /// Refers to the audio file at `path`.
    pub fn new(path: &str) -> (s: Self)
        ensures
            s.path@ == path@,
    {
        StreamedAudio { path: path.to_owned() }
    }

    /// Turns the reference into a streaming audio asset: the path itself when
    /// the file exists (`exists` is the caller's check of the file system),
    /// else `Missing`.
    pub fn into_asset(self, exists: bool) -> (r: Result<String, AudioLoadError>)
        ensures
            exists ==> (r matches Ok(p) && p@ == self.path@),
            !exists ==> r == Err::<String, AudioLoadError>(AudioLoadError::Missing),
    {
        if !exists {
            return Err(AudioLoadError::Missing);
        }
        Ok(self.path)
    }
}

/// The loader of static audio assets, decoded whole from a file.
pub struct AudioLoader;

// ---------------------------------------------------------------- play queue

/// The state of the asset of a queued sound when the queue is processed.
#[derive(Clone, Copy, Debug, PartialEq, Eq, Structural)]
pub enum QueuedAudio {
    /// the asset is not loaded yet: the sound waits for a later frame
    NotLoaded,
    /// a decoded sound: it is played now
    Static,
    /// a streamed sound: it is dropped from the queue without playing
    Streaming,
}

/// The items among `items` whose state in `status` is `kind`, in order.
pub open spec fn select<T>(items: Seq<T>, status: Seq<QueuedAudio>, kind: QueuedAudio) -> Seq<T>
    decreases items.len(),
{
    if items.len() == 0 {
        Seq::empty()
    } else {
        let rest = select(items.drop_last(), status, kind);
        if status[items.len() - 1] == kind {
            rest.push(items.last())
        } else {
            rest
        }
    }
}

/// The audio plugin: plays queued sounds and moves the listener.
pub struct AudioPlugin;

impl AudioPlugin {
    /// Processes a queue of sounds: returns the sounds to play now and the
    /// queue for the next frame, both in queue order. `status[i]` is the state
    /// of the asset of the `i`-th queued sound.
    pub fn process_queue<T>(queue: Vec<T>, status: &Vec<QueuedAudio>) -> (r: (Vec<T>, Vec<T>))
        requires
            status.len() == queue.len(),
        ensures
            r.0@ == select(queue@, status@, QueuedAudio::Static),
            r.1@ == select(queue@, status@, QueuedAudio::NotLoaded),
    {
        let ghost items = queue@;
        let mut queue = queue;
        let mut play: Vec<T> = Vec::new();
        let mut requeue: Vec<T> = Vec::new();
        let mut k: usize = 0;
        while queue.len() > 0
            invariant
                status.len() == items.len(),
                k <= items.len(),
                queue@ == items.skip(k as int),
                play@ == select(items.take(k as int), status@, QueuedAudio::Static),
                requeue@ == select(items.take(k as int), status@, QueuedAudio::NotLoaded),
            decreases queue.len(),
        {
            let item = queue.remove(0);
            proof {
                assert(items.take(k + 1).drop_last() =~= items.take(k as int));
                assert(items.take(k + 1).last() == item);
                assert(queue@ =~= items.skip(k + 1));
            }
            match status[k] {
                QueuedAudio::NotLoaded => requeue.push(item),
                QueuedAudio::Static => play.push(item),
                QueuedAudio::Streaming => {},
            }
            k = k + 1;
        }
        assert(items.take(k as int) =~= items);
        (play, requeue)
    }

    /// The listener audio is heard from: the last one with the greatest
    /// priority, or `None` when the scene has no listener.
    pub fn active_listener(priorities: &Vec<i32>) -> (r: Option<usize>)
        ensures
            r is None <==> priorities.len() == 0,
            r matches Some(k) ==> is_last_max(Seq::new(priorities.len() as nat, |i: int| true), priorities@, k as int),
    {
        let mut eligible: Vec<bool> = Vec::new();
        let mut i: usize = 0;
        while i < priorities.len()
            invariant
                i <= priorities.len(),
                eligible@ =~= Seq::new(i as nat, |q: int| true),
            decreases priorities.len() - i,
        {
            eligible.push(true);
            i = i + 1;
        }
        let r = last_max_priority(&eligible, priorities);
        proof {
            if priorities.len() > 0 {
                assert(eligible[0]);
            }
        }
        r
    }
}

/// What the audio plugin does with the listener in a frame.
#[derive(Clone, Copy, Debug, PartialEq, Eq, Structural)]
pub struct ListenerPlan {
    /// the scene listener audio is heard from
    pub active: Option<usize>,
    /// whether the mixer's listener is created this frame
    pub create: bool,
    /// whether the listener is moved and the audio sources are updated;
    /// without a listener in the scene the mixer's listener is dropped and
    /// the sources wait
    pub update_sources: bool,
}

impl AudioPlugin {
    /// The listener step for a scene whose listeners have `priorities`, when
    /// the mixer already has a listener or not.
    pub fn listener_plan(priorities: &Vec<i32>, mixer_has_listener: bool) -> (p: ListenerPlan)
        ensures
            p.active is None <==> priorities.len() == 0,
            p.active matches Some(k) ==> is_last_max(
                Seq::new(priorities.len() as nat, |i: int| true),
                priorities@,
                k as int,
            ),
            p.create == (priorities.len() > 0 && !mixer_has_listener),
            p.update_sources == (priorities.len() > 0),
    {
        let active = AudioPlugin::active_listener(priorities);
        match active {
            None => ListenerPlan { active, create: false, update_sources: false },
            Some(_) => ListenerPlan { active, create: !mixer_has_listener, update_sources: true },
        }
    }
}

/// What the audio plugin does in a frame: the queued sounds it plays (each
/// then replays its waiting commands, see `DeferredCommands::go_live`), the
/// queue it keeps for the next frame, and what it does with the listener.
pub struct AudioUpdate<T> {
    pub play: Vec<T>,
    pub requeue: Vec<T>,
    pub listener: ListenerPlan,
    /// whether the mixer keeps a listener after this frame
    pub keeps_listener: bool,
}

impl AudioPlugin {
    /// One frame of the audio plugin, for the queued sounds whose assets are
    /// in state `status` and a scene whose listeners have
    /// `listener_priorities`: sounds not loaded yet stay queued in order,
    /// loaded static sounds are played in order, loaded streamed sounds are
    /// dropped; without a listener in the scene the mixer keeps none.
    pub fn update<T>(
        queue: Vec<T>,
        status: &Vec<QueuedAudio>,
        listener_priorities: &Vec<i32>,
        mixer_has_listener: bool,
    ) -> (u: AudioUpdate<T>)
        requires
            status.len() == queue.len(),
        ensures
            u.play@ == select(queue@, status@, QueuedAudio::Static),
            u.requeue@ == select(queue@, status@, QueuedAudio::NotLoaded),
            u.listener.active is None <==> listener_priorities.len() == 0,
            u.listener.active matches Some(k) ==> is_last_max(
                Seq::new(listener_priorities.len() as nat, |i: int| true),
                listener_priorities@,
                k as int,
            ),
            u.listener.create == (listener_priorities.len() > 0 && !mixer_has_listener),
            u.listener.update_sources == (listener_priorities.len() > 0),
            u.keeps_listener == (listener_priorities.len() > 0),
    {
        let (play, requeue) = AudioPlugin::process_queue(queue, status);
        let listener = AudioPlugin::listener_plan(listener_priorities, mixer_has_listener);
        let keeps_listener = listener.active.is_some();
        AudioUpdate { play, requeue, listener, keeps_listener }
    }
}

/// Every queued sound is handled once: played, kept queued or dropped.
pub proof fn lemma_queue_partition<T>(items: Seq<T>, status: Seq<QueuedAudio>)
    requires
        items.len() <= status.len(),
    ensures
        select(items, status, QueuedAudio::Static).len() + select(items, status, QueuedAudio::NotLoaded).len()
            + select(items, status, QueuedAudio::Streaming).len() == items.len(),
    decreases items.len(),
{
    if items.len() > 0 {
        lemma_queue_partition(items.drop_last(), status);
    }
}

// ---------------------------------------------------------------- deferred commands

/// Commands for a sound or source that may not have started yet: while it
/// has not, they wait in order; once it has, they go straight to it.
pub enum DeferredCommands<C> {
    /// the sound is playing: commands apply at once
    Live,
    /// the sound has not started: the commands issued so far, oldest first
    Deferred(Vec<C>),
}

/// The commands waiting, or `None` once the sound is live.
pub open spec fn pending<C>(d: DeferredCommands<C>) -> Option<Seq<C>> {
    match d {
        DeferredCommands::Live => None,
        DeferredCommands::Deferred(q) => Some(q@),
    }
}

/// Issuing `cmd`: the new waiting commands, and the command to apply now, if any.
pub open spec fn submit_step<C>(p: Option<Seq<C>>, cmd: C) -> (Option<Seq<C>>, Option<C>) {
    match p {
        None => (None, Some(cmd)),
        Some(q) => (Some(q.push(cmd)), None),
    }
}

/// Starting the sound: it becomes live, and the waiting commands are applied in order.
pub open spec fn go_live_step<C>(p: Option<Seq<C>>) -> (Option<Seq<C>>, Seq<C>) {
    match p {
        None => (None, Seq::empty()),
        Some(q) => (None, q),
    }
}

/// Issuing each of `cmds` in turn.
pub open spec fn submit_all<C>(p: Option<Seq<C>>, cmds: Seq<C>) -> Option<Seq<C>>
    decreases cmds.len(),
{
    if cmds.len() == 0 {
        p
    } else {
        submit_step(submit_all(p, cmds.drop_last()), cmds.last()).0
    }
}

impl<C> DeferredCommands<C> {
    /// A sound that has not started, with no commands waiting.
    pub fn new() -> (d: Self)
        ensures
            pending(d) == Some(Seq::<C>::empty()),
    {
        DeferredCommands::Deferred(Vec::new())
    }

    /// Issues `cmd`: returns it when it is to be applied now, or keeps it
    /// until the sound starts.
    pub fn submit(&mut self, cmd: C) -> (now: Option<C>)
        ensures
            (pending(*final(self)), now) == submit_step(pending(*old(self)), cmd),
    {
        match self {
            DeferredCommands::Live => Some(cmd),
            DeferredCommands::Deferred(q) => {
                q.push(cmd);
                None
            },
        }
    }

    /// The sound has started: returns the waiting commands, oldest first, to
    /// be applied to it; later commands apply at once.
    pub fn go_live(&mut self) -> (waiting: Vec<C>)
        ensures
            (pending(*final(self)), waiting@) == go_live_step(pending(*old(self))),
    {
        let mut prev = DeferredCommands::Live;
        std::mem::swap(&mut prev, self);
        match prev {
            DeferredCommands::Live => Vec::new(),
            DeferredCommands::Deferred(q) => q,
        }
    }
}

/// Commands issued before a sound starts are all applied when it starts,
/// each once and in the order they were issued; afterwards every command is
/// applied at once.
pub proof fn lemma_deferred_commands_in_order<C>(cmds: Seq<C>, later: C)
    ensures
        submit_all(Some(Seq::<C>::empty()), cmds) == Some(cmds),
        go_live_step(submit_all(Some(Seq::<C>::empty()), cmds)).1 == cmds,
        submit_step(go_live_step(submit_all(Some(Seq::<C>::empty()), cmds)).0, later).1 == Some(later),
    decreases cmds.len(),
{
    if cmds.len() > 0 {
        lemma_deferred_commands_in_order(cmds.drop_last(), later);
        assert(cmds.drop_last().push(cmds.last()) =~= cmds);
    } else {
        assert(cmds =~= Seq::<C>::empty());
    }
}

/// Commands on a sound.
#[derive(Clone, Copy, Debug, PartialEq, Eq, Structural)]
pub enum SoundCommand {
    SetVolume,
    SetPlaybackRate,
    SetPanning,
    SetLoopRegion,
    Pause,
    Resume,
    ResumeAt,
    Stop,
}

/// The method a waiting sound command is replayed as once the sound starts:
/// the one it would have called on a playing sound, so that a waiting resume
/// resumes it and a waiting pause pauses it.
pub fn deferred_sound_method(cmd: SoundCommand) -> (m: SoundCommand)
    ensures
        m == cmd,
{
    cmd
}

} // verus!
