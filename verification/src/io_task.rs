//! The session and loop I/O dialog: the channel mapping of an import, the ordered channel
//! selection of an export, the resampling question, and the answers they send.

use vstd::prelude::*;

verus! {

/// Identity of an I/O task.
#[derive(Clone, Copy, Debug, PartialEq, Eq, Structural, PartialOrd, Ord, Hash)]
pub struct TaskId(pub u64);

impl TaskId {
    pub fn from_raw(raw: u64) -> (r: Self)
        ensures
            r.0 == raw,
    {
        TaskId(raw)
    }
}

/// The stages of an I/O task that the dialog tells apart.
#[derive(Clone, Copy, Debug, PartialEq, Eq, Structural)]
pub enum IoTaskStatus {
    Running,
    AwaitingChannelSelection,
    Completed,
    Cancelled,
    Failed,
}

/// An import that asks which source channel feeds each destination channel.
#[derive(Clone, Debug, PartialEq, Eq)]
pub struct ChannelMappingRequest {
    pub destination_channels: usize,
    pub source_channels: usize,
    pub default_mapping: Vec<u32>,
}

/// An export that asks which channels to write, in which order.
#[derive(Clone, Debug, PartialEq, Eq)]
pub struct ChannelSelectionRequest {
    pub available_channels: u32,
    pub default_selection: Vec<u32>,
}

/// What the dialog reads of the current I/O task.
#[derive(Clone, Debug, PartialEq, Eq)]
pub struct IoTaskView {
    pub id: TaskId,
    pub status: IoTaskStatus,
    pub audio_channel_mapping: Option<ChannelMappingRequest>,
    pub audio_channel_selection: Option<ChannelSelectionRequest>,
    pub sample_rate_warning: bool,
}

/// The buttons of the dialog: the one that goes ahead (import with the mapping, export the
/// channels, resample and load) and the one that cancels.
#[derive(Clone, Copy, Debug, PartialEq, Eq, Structural)]
pub enum IoTaskButton {
    Confirm,
    Cancel,
}

/// What the dialog answers the application.
#[derive(Clone, Debug, PartialEq, Eq)]
pub enum IoTaskAction {
    ConfirmAudioChannelMapping { task_id: TaskId, source_for_destination: Vec<u32> },
    ConfirmAudioChannelSelection { task_id: TaskId, channels: Vec<u32> },
    CancelIoTask { task_id: TaskId },
    ConfirmSampleRateConversion { task_id: TaskId, accept: bool },
}

/// An answer as plain values: the task and what is answered for it.
pub enum IoTaskAnswer {
    ConfirmAudioChannelMapping(TaskId, Seq<u32>),
    ConfirmAudioChannelSelection(TaskId, Seq<u32>),
    CancelIoTask(TaskId),
    ConfirmSampleRateConversion(TaskId, bool),
}

/// The answer that an action carries.
pub open spec fn action_answer(action: IoTaskAction) -> IoTaskAnswer {
    match action {
        IoTaskAction::ConfirmAudioChannelMapping { task_id, source_for_destination } =>
            IoTaskAnswer::ConfirmAudioChannelMapping(task_id, source_for_destination@),
        IoTaskAction::ConfirmAudioChannelSelection { task_id, channels } =>
            IoTaskAnswer::ConfirmAudioChannelSelection(task_id, channels@),
        IoTaskAction::CancelIoTask { task_id } => IoTaskAnswer::CancelIoTask(task_id),
        IoTaskAction::ConfirmSampleRateConversion { task_id, accept } =>
            IoTaskAnswer::ConfirmSampleRateConversion(task_id, accept),
    }
}

/// A change of the export's channel list.
#[derive(Clone, Copy, Debug, PartialEq, Eq, Structural)]
pub enum ChannelSelectionEvent {
    /// The dialog is drawn again with no click.
    Refresh,
    Remove(usize),
    MoveUp(usize),
    MoveDown(usize),
    /// The "Add channel" button.
    Add,
    /// The output at `index` is set to `channel`.
    Choose { index: usize, channel: u32 },
}

/// The dialog shows the task until it is completed or cancelled.
pub open spec fn spec_dialog_visible(status: IoTaskStatus) -> bool {
    status != IoTaskStatus::Completed && status != IoTaskStatus::Cancelled
}

/// The mapping that the import dialog edits: the draft while it has one source per
/// destination, else the task's default.
pub open spec fn spec_mapping_draft(draft: Option<Seq<u32>>, default_mapping: Seq<u32>, destinations: nat) -> Seq<u32> {
    match draft {
        Some(d) => if d.len() == destinations { d } else { default_mapping },
        None => default_mapping,
    }
}

/// The channels of the list that exist.
pub open spec fn kept_channels(draft: Seq<u32>, available: u32) -> Seq<u32> {
    draft.filter(|c: u32| c < available)
}

/// `c` is the smallest existing channel that the list does not hold.
pub open spec fn smallest_unused_at(draft: Seq<u32>, available: u32, c: u32) -> bool {
    &&& c < available
    &&& !draft.contains(c)
    &&& forall|d: u32| d < c ==> draft.contains(d)
}

/// The channel that "Add channel" offers: the smallest existing one not in the list.
pub open spec fn spec_smallest_unused(draft: Seq<u32>, available: u32) -> Option<u32> {
    if exists|c: u32| c < available && !draft.contains(c) {
        Some(choose|c: u32| smallest_unused_at(draft, available, c))
    } else {
        None
    }
}

/// Another output than `index` already holds `channel`.
pub open spec fn used_elsewhere(draft: Seq<u32>, index: int, channel: u32) -> bool {
    exists|other: int| 0 <= other < draft.len() && other != index && draft[other] == channel
}

/// The export's channel list after one drawing of the dialog: channels that no longer exist
/// leave, then the event applies. Removal takes out that output; moving up or down swaps it
/// with its neighbour where there is one; adding appends the smallest unused channel; a
/// choice sets the output to a channel that exists and that no other output holds.
pub open spec fn spec_selection_step(draft: Seq<u32>, available: u32, event: ChannelSelectionEvent) -> Seq<u32> {
    let k = kept_channels(draft, available);
    match event {
        ChannelSelectionEvent::Refresh => k,
        ChannelSelectionEvent::Remove(i) => if i < k.len() { k.remove(i as int) } else { k },
        ChannelSelectionEvent::MoveUp(i) => if 0 < i < k.len() {
            k.update(i as int, k[i - 1]).update(i - 1, k[i as int])
        } else {
            k
        },
        ChannelSelectionEvent::MoveDown(i) => if i + 1 < k.len() {
            k.update(i as int, k[i + 1]).update(i + 1, k[i as int])
        } else {
            k
        },
        ChannelSelectionEvent::Add => match spec_smallest_unused(k, available) {
            Some(c) => k.push(c),
            None => k,
        },
        ChannelSelectionEvent::Choose { index, channel } => if index < k.len() && channel < available
            && !used_elsewhere(k, index as int, channel) {
            k.update(index as int, channel)
        } else {
            k
        },
    }
}

/// What a click of `button` answers while the dialog shows `task` with the list `draft`: the
/// mapping or the channel list of the task's question (an empty list cannot be exported), the
/// answer to the resampling question, or, while the task merely runs, its cancellation.
pub open spec fn spec_io_task_answer(task: IoTaskView, draft: Seq<u32>, button: IoTaskButton) -> Option<
    IoTaskAnswer,
> {
    if !spec_dialog_visible(task.status) {
        None
    } else if task.audio_channel_mapping is Some {
        match button {
            IoTaskButton::Confirm => Some(IoTaskAnswer::ConfirmAudioChannelMapping(task.id, draft)),
            IoTaskButton::Cancel => Some(IoTaskAnswer::CancelIoTask(task.id)),
        }
    } else if task.audio_channel_selection is Some {
        match button {
            IoTaskButton::Confirm => if draft.len() > 0 {
                Some(IoTaskAnswer::ConfirmAudioChannelSelection(task.id, draft))
            } else {
                None
            },
            IoTaskButton::Cancel => Some(IoTaskAnswer::CancelIoTask(task.id)),
        }
    } else if task.sample_rate_warning {
        Some(IoTaskAnswer::ConfirmSampleRateConversion(task.id, button == IoTaskButton::Confirm))
    } else if task.status == IoTaskStatus::Running && button == IoTaskButton::Cancel {
        Some(IoTaskAnswer::CancelIoTask(task.id))
    } else {
        None
    }
}

/// Whether the dialog shows a task in this stage.
pub fn dialog_visible(status: IoTaskStatus) -> (r: bool)
    ensures
        r == spec_dialog_visible(status),
{
    status != IoTaskStatus::Completed && status != IoTaskStatus::Cancelled
}

/// The mapping that the import dialog edits: see `spec_mapping_draft`.
pub fn channel_mapping_draft(draft: Option<Vec<u32>>, default_mapping: &Vec<u32>, destinations: usize) -> (r: Vec<u32>)
    ensures
        r@ == spec_mapping_draft(
            match draft {
                Some(d) => Some(d@),
                None => None,
            },
            default_mapping@,
            destinations as nat,
        ),
{
    match draft {
        Some(d) => if d.len() == destinations {
            d
        } else {
            default_mapping.clone()
        },
        None => default_mapping.clone(),
    }
}

/// The channels of `draft` that exist, in order.
pub fn keep_existing_channels(draft: &Vec<u32>, available: u32) -> (r: Vec<u32>)
    ensures
        r@ == kept_channels(draft@, available),
{
    let mut kept: Vec<u32> = Vec::new();
    let mut i: usize = 0;
    while i < draft.len()
        invariant
            i <= draft@.len(),
            kept@ == draft@.take(i as int).filter(|c: u32| c < available),
        decreases draft@.len() - i,
    {
        proof {
            reveal_with_fuel(Seq::<_>::filter, 1);
            assert(draft@.take(i + 1).drop_last() =~= draft@.take(i as int));
        }
        if draft[i] < available {
            kept.push(draft[i]);
        }
        i = i + 1;
    }
    proof {
        assert(draft@.take(draft@.len() as int) =~= draft@);
    }
    kept
}

fn holds_channel(draft: &Vec<u32>, channel: u32) -> (r: bool)
    ensures
        r == draft@.contains(channel),
{
    let mut i: usize = 0;
    while i < draft.len()
        invariant
            i <= draft@.len(),
            forall|k: int| 0 <= k < i ==> draft@[k] != channel,
        decreases draft@.len() - i,
    {
        if draft[i] == channel {
            proof {
                assert(draft@[i as int] == channel);
            }
            return true;
        }
        i = i + 1;
    }
    false
}

/// The channel that "Add channel" offers: the smallest existing one that `draft` does not
/// hold, none when it holds them all.
pub fn smallest_unused_channel(draft: &Vec<u32>, available: u32) -> (r: Option<u32>)
    ensures
        r == spec_smallest_unused(draft@, available),
{
    let mut c: u32 = 0;
    while c < available
        invariant
            c <= available,
            forall|d: u32| d < c ==> draft@.contains(d),
        decreases available - c,
    {
        if !holds_channel(draft, c) {
            proof {
                assert(smallest_unused_at(draft@, available, c));
                let x = choose|x: u32| smallest_unused_at(draft@, available, x);
                assert(smallest_unused_at(draft@, available, x));
                if x < c {
                    assert(draft@.contains(x));
                }
                if c < x {
                    assert(draft@.contains(c));
                }
            }
            return Some(c);
        }
        c = c + 1;
    }
    proof {
        assert forall|x: u32| x < available implies draft@.contains(x) by {}
    }
    None
}

fn used_by_other(draft: &Vec<u32>, index: usize, channel: u32) -> (r: bool)
    ensures
        r == used_elsewhere(draft@, index as int, channel),
{
    let mut i: usize = 0;
    while i < draft.len()
        invariant
            i <= draft@.len(),
            forall|k: int| 0 <= k < i && k != index ==> draft@[k] != channel,
        decreases draft@.len() - i,
    {
        if i != index && draft[i] == channel {
            return true;
        }
        i = i + 1;
    }
    false
}

/// One drawing of the export dialog with `event`: see `spec_selection_step`.
pub fn channel_selection_step(draft: &mut Vec<u32>, available: u32, event: ChannelSelectionEvent)
    ensures
        final(draft)@ == spec_selection_step(old(draft)@, available, event),
{
    let mut kept = keep_existing_channels(draft, available);
    match event {
        ChannelSelectionEvent::Refresh => {},
        ChannelSelectionEvent::Remove(i) => {
            if i < kept.len() {
                kept.remove(i);
            }
        },
        ChannelSelectionEvent::MoveUp(i) => {
            if 0 < i && i < kept.len() {
                let a = kept[i];
                let b = kept[i - 1];
                kept.set(i, b);
                kept.set(i - 1, a);
            }
        },
        ChannelSelectionEvent::MoveDown(i) => {
            if i < kept.len() && i + 1 < kept.len() {
                let a = kept[i];
                let b = kept[i + 1];
                kept.set(i, b);
                kept.set(i + 1, a);
            }
        },
        ChannelSelectionEvent::Add => {
            if let Some(c) = smallest_unused_channel(&kept, available) {
                kept.push(c);
            }
        },
        ChannelSelectionEvent::Choose { index, channel } => {
            if index < kept.len() && channel < available && !used_by_other(&kept, index, channel) {
                kept.set(index, channel);
            }
        },
    }
    *draft = kept;
}

/// What a click of `button` answers: see `spec_io_task_answer`.
pub fn io_task_action(task: &IoTaskView, draft: &Vec<u32>, button: IoTaskButton) -> (r: Option<IoTaskAction>)
    ensures
        match r {
            Some(a) => spec_io_task_answer(*task, draft@, button) == Some(action_answer(a)),
            None => spec_io_task_answer(*task, draft@, button) is None,
        },
{
    if !dialog_visible(task.status) {
        None
    } else if task.audio_channel_mapping.is_some() {
        match button {
            IoTaskButton::Confirm => Some(
                IoTaskAction::ConfirmAudioChannelMapping { task_id: task.id, source_for_destination: draft.clone() },
            ),
            IoTaskButton::Cancel => Some(IoTaskAction::CancelIoTask { task_id: task.id }),
        }
    } else if task.audio_channel_selection.is_some() {
        match button {
            IoTaskButton::Confirm => if draft.len() > 0 {
                Some(IoTaskAction::ConfirmAudioChannelSelection { task_id: task.id, channels: draft.clone() })
            } else {
                None
            },
            IoTaskButton::Cancel => Some(IoTaskAction::CancelIoTask { task_id: task.id }),
        }
    } else if task.sample_rate_warning {
        Some(IoTaskAction::ConfirmSampleRateConversion { task_id: task.id, accept: button == IoTaskButton::Confirm })
    } else if task.status == IoTaskStatus::Running && button == IoTaskButton::Cancel {
        Some(IoTaskAction::CancelIoTask { task_id: task.id })
    } else {
        None
    }
}

/// The export's confirmation for `task_id` with `channels` in their order.
pub fn audio_channel_selection_action(task_id: TaskId, channels: &Vec<u32>) -> (r: IoTaskAction)
    ensures
        action_answer(r) == IoTaskAnswer::ConfirmAudioChannelSelection(task_id, channels@),
{
    IoTaskAction::ConfirmAudioChannelSelection { task_id, channels: channels.clone() }
}

/// Moving an output down swaps it with the next one, and moving it up swaps it with the one
/// before; every other output keeps its place and the list keeps its length. Moving one down
/// and the next one up gives the list back.
pub proof fn lemma_moves_swap_neighbours(draft: Seq<u32>, available: u32, i: usize)
    ensures
        ({
            let k = kept_channels(draft, available);
            let down = spec_selection_step(draft, available, ChannelSelectionEvent::MoveDown(i));
            i + 1 < k.len() ==> {
                &&& down.len() == k.len()
                &&& down[i as int] == k[i + 1]
                &&& down[i + 1] == k[i as int]
                &&& forall|j: int| 0 <= j < k.len() && j != i && j != i + 1 ==> down[j] == k[j]
            }
        }),
        ({
            let k = kept_channels(draft, available);
            let up = spec_selection_step(draft, available, ChannelSelectionEvent::MoveUp(i));
            0 < i < k.len() ==> {
                &&& up.len() == k.len()
                &&& up[i as int] == k[i - 1]
                &&& up[i - 1] == k[i as int]
                &&& forall|j: int| 0 <= j < k.len() && j != i && j != i - 1 ==> up[j] == k[j]
            }
        }),
        ({
            let k = kept_channels(draft, available);
            let down = spec_selection_step(draft, available, ChannelSelectionEvent::MoveDown(i));
            i + 1 < k.len() && i + 1 <= usize::MAX ==> spec_selection_step(
                down,
                available,
                ChannelSelectionEvent::MoveUp((i + 1) as usize),
            ) == k
        }),
{
    let k = kept_channels(draft, available);
    if i + 1 < k.len() {
        let down = spec_selection_step(draft, available, ChannelSelectionEvent::MoveDown(i));
        assert forall|x: int| 0 <= x < down.len() implies down[x] < available by {
            lemma_kept_exist(draft, available);
            if x == i {
                assert(k[i + 1] < available);
            } else if x == i + 1 {
                assert(k[i as int] < available);
            } else {
                assert(k[x] < available);
            }
        }
        lemma_all_existing_kept(down, available);
        assert(kept_channels(down, available) == down);
        if i + 1 <= usize::MAX {
            let j = (i + 1) as usize;
            assert(j as int == i + 1);
            let up = spec_selection_step(down, available, ChannelSelectionEvent::MoveUp(j));
            assert(up == down.update(j as int, down[j - 1]).update(j - 1, down[j as int]));
            assert(up =~= k);
        }
    }
}

proof fn lemma_kept_exist(draft: Seq<u32>, available: u32)
    ensures
        forall|x: int| 0 <= x < kept_channels(draft, available).len() ==> #[trigger] kept_channels(draft, available)[x] < available,
{
    draft.filter_lemma(|c: u32| c < available);
}

proof fn lemma_all_existing_kept(draft: Seq<u32>, available: u32)
    requires
        forall|x: int| 0 <= x < draft.len() ==> draft[x] < available,
    ensures
        kept_channels(draft, available) == draft,
    decreases draft.len(),
{
    reveal_with_fuel(Seq::<_>::filter, 1);
    if draft.len() > 0 {
        lemma_all_existing_kept(draft.drop_last(), available);
        assert(draft.drop_last().push(draft.last()) =~= draft);
    } else {
        assert(draft.filter(|c: u32| c < available) =~= draft);
    }
}

/// Removing an output takes out that output alone, the others keep their order; adding one
/// appends a channel that exists, is not in the list yet, and is the smallest such, or changes
/// nothing when every existing channel is listed; choosing a channel for an output changes
/// that output alone, and only to an existing channel no other output holds.
pub proof fn lemma_remove_add_choose(draft: Seq<u32>, available: u32, i: usize, channel: u32)
    ensures
        ({
            let k = kept_channels(draft, available);
            let r = spec_selection_step(draft, available, ChannelSelectionEvent::Remove(i));
            i < k.len() ==> {
                &&& r.len() + 1 == k.len()
                &&& forall|j: int| 0 <= j < i ==> r[j] == k[j]
                &&& forall|j: int| i <= j < r.len() ==> r[j] == k[j + 1]
            }
        }),
        ({
            let k = kept_channels(draft, available);
            let r = spec_selection_step(draft, available, ChannelSelectionEvent::Add);
            if exists|c: u32| c < available && !k.contains(c) {
                &&& r.len() == k.len() + 1
                &&& r.drop_last() == k
                &&& r.last() < available
                &&& !k.contains(r.last())
                &&& forall|c: u32| c < r.last() ==> k.contains(c)
            } else {
                r == k
            }
        }),
        ({
            let k = kept_channels(draft, available);
            let r = spec_selection_step(draft, available, ChannelSelectionEvent::Choose { index: i, channel });
            &&& r.len() == k.len()
            &&& forall|j: int| 0 <= j < k.len() && j != i ==> r[j] == k[j]
            &&& i < k.len() ==> (r[i as int] == k[i as int] || (r[i as int] == channel && channel < available
                && forall|j: int| 0 <= j < k.len() && j != i ==> k[j] != channel))
        }),
{
    let k = kept_channels(draft, available);
    if exists|c: u32| c < available && !k.contains(c) {
        let w = choose|c: u32| c < available && !k.contains(c);
        lemma_smallest_unused_exists(k, available, w);
        let c = choose|c: u32| smallest_unused_at(k, available, c);
        let r = spec_selection_step(draft, available, ChannelSelectionEvent::Add);
        assert(r == k.push(c));
        assert(r.drop_last() =~= k);
    }
}

/// Below any unused existing channel there is a smallest one.
proof fn lemma_smallest_unused_exists(k: Seq<u32>, available: u32, w: u32)
    requires
        w < available,
        !k.contains(w),
    ensures
        exists|c: u32| smallest_unused_at(k, available, c),
    decreases w,
{
    if forall|d: u32| d < w ==> k.contains(d) {
        assert(smallest_unused_at(k, available, w));
    } else {
        let d = choose|d: u32| d < w && !k.contains(d);
        lemma_smallest_unused_exists(k, available, d);
    }
}

} // verus!
