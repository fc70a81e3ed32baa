use vstd::prelude::*;
use std::collections::{HashMap, HashSet};
use crate::registry::{VoiceContextInfo, VoiceContextView};

verus! {

broadcast use vstd::std_specs::hash::group_hash_axioms;

// ---------------------------------------------------------------------------
// The stored configuration
// ---------------------------------------------------------------------------

/// A voice channel that the bot joins by itself: its guild, and where notices go.
#[derive(Clone, Copy, PartialEq, Eq, Debug)]
pub struct AutoConnection {
    pub voice_channel_id: u64,
    pub guild_id: u64,
    pub notify_channel_id: u64,
}

/// A text channel read aloud while the bot is in an auto-connected voice channel.
#[derive(Clone, Copy, PartialEq, Eq, Debug)]
pub struct ReadingTarget {
    pub voice_channel_id: u64,
    pub text_channel_id: u64,
    pub guild_id: u64,
}

/// The text channels stored for voice channel `vc`, in the order of the rows.
pub open spec fn texts_of(t: Seq<ReadingTarget>, vc: u64) -> Seq<u64>
    decreases t.len(),
{
    if t.len() == 0 {
        Seq::empty()
    } else if t.last().voice_channel_id == vc {
        texts_of(t.drop_last(), vc).push(t.last().text_channel_id)
    } else {
        texts_of(t.drop_last(), vc)
    }
}

/// The rows of `t` that are not for voice channel `vc`.
pub open spec fn without_vc(t: Seq<ReadingTarget>, vc: u64) -> Seq<ReadingTarget>
    decreases t.len(),
{
    if t.len() == 0 {
        Seq::empty()
    } else if t.last().voice_channel_id == vc {
        without_vc(t.drop_last(), vc)
    } else {
        without_vc(t.drop_last(), vc).push(t.last())
    }
}

/// The rows that store `reading` as the text channels of voice channel `vc` of `guild`.
pub open spec fn target_rows(guild: u64, vc: u64, reading: Seq<u64>) -> Seq<ReadingTarget> {
    reading.map_values(
        |c: u64| ReadingTarget { voice_channel_id: vc, text_channel_id: c, guild_id: guild },
    )
}

/// The abstract view of the stored configuration: the auto-connected voice channels by id,
/// and the rows of text channels to read.
pub struct AutoConnectView {
    pub connections: Map<u64, AutoConnection>,
    pub targets: Seq<ReadingTarget>,
}

/// The auto-connected voice channels and the text channels read for them.
pub struct AutoConnectStore {
    connections: HashMap<u64, AutoConnection>,
    targets: Vec<ReadingTarget>,
}

impl View for AutoConnectStore {
    type V = AutoConnectView;

    closed spec fn view(&self) -> AutoConnectView {
        AutoConnectView { connections: self.connections@, targets: self.targets@ }
    }
}

/// Every connection is stored under its own voice channel.
pub open spec fn keyed_by_channel(m: Map<u64, AutoConnection>) -> bool {
    forall|k: u64| m.contains_key(k) ==> (#[trigger] m[k]).voice_channel_id == k
}

proof fn lemma_texts_of_add(a: Seq<ReadingTarget>, b: Seq<ReadingTarget>, vc: u64)
    ensures
        texts_of(a + b, vc) == texts_of(a, vc) + texts_of(b, vc),
    decreases b.len(),
{
    if b.len() == 0 {
        assert(a + b =~= a);
        assert(texts_of(a, vc) + texts_of(b, vc) =~= texts_of(a, vc));
    } else {
        assert((a + b).drop_last() =~= a + b.drop_last());
        assert((a + b).last() == b.last());
        lemma_texts_of_add(a, b.drop_last(), vc);
        if b.last().voice_channel_id == vc {
            assert(texts_of(a, vc) + texts_of(b.drop_last(), vc).push(b.last().text_channel_id)
                =~= (texts_of(a, vc) + texts_of(b.drop_last(), vc)).push(b.last().text_channel_id));
        }
    }
}

proof fn lemma_texts_of_without(t: Seq<ReadingTarget>, vc: u64, w: u64)
    ensures
        texts_of(without_vc(t, vc), w) == (if w == vc {
            Seq::<u64>::empty()
        } else {
            texts_of(t, w)
        }),
    decreases t.len(),
{
    if t.len() > 0 {
        lemma_texts_of_without(t.drop_last(), vc, w);
        if t.last().voice_channel_id != vc {
            let s = without_vc(t.drop_last(), vc).push(t.last());
            assert(s.drop_last() =~= without_vc(t.drop_last(), vc));
            assert(s.last() == t.last());
        }
    }
}

proof fn lemma_texts_of_rows(guild: u64, vc: u64, reading: Seq<u64>, w: u64)
    ensures
        texts_of(target_rows(guild, vc, reading), w) == (if w == vc {
            reading
        } else {
            Seq::<u64>::empty()
        }),
    decreases reading.len(),
{
    if reading.len() > 0 {
        lemma_texts_of_rows(guild, vc, reading.drop_last(), w);
        assert(target_rows(guild, vc, reading).drop_last() =~= target_rows(
            guild,
            vc,
            reading.drop_last(),
        ));
        if w == vc {
            assert(reading.drop_last().push(reading.last()) =~= reading);
        }
    }
}

proof fn lemma_without_vc_push(t: Seq<ReadingTarget>, vc: u64, x: ReadingTarget)
    ensures
        without_vc(t.push(x), vc) == (if x.voice_channel_id == vc {
            without_vc(t, vc)
        } else {
            without_vc(t, vc).push(x)
        }),
{
    assert(t.push(x).drop_last() =~= t);
    assert(t.push(x).last() == x);
}

pub(crate) fn contains_id(v: &Vec<u64>, x: u64) -> (b: bool)
    ensures
        b == v@.contains(x),
{
    let mut i: usize = 0;
    while i < v.len()
        invariant
            i <= v.len(),
            forall|j: int| 0 <= j < i ==> v@[j] != x,
        decreases v.len() - i,
    {
        if v[i] == x {
            return true;
        }
        i = i + 1;
    }
    false
}

impl AutoConnectStore {
    /// The connections are stored under their own voice channels.
    #[verifier::type_invariant]
    spec fn well_formed(&self) -> bool {
        keyed_by_channel(self.connections@)
    }

    /// The stored connections, each under its own voice channel.
    pub fn connections(&self) -> (r: &HashMap<u64, AutoConnection>)
        ensures
            r@ == self@.connections,
            keyed_by_channel(r@),
    {
        proof {
            use_type_invariant(self);
        }
        &self.connections
    }

    /// The stored rows of text channels to read, in order.
    pub fn targets(&self) -> (r: &Vec<ReadingTarget>)
        ensures
            r@ == self@.targets,
    {
        &self.targets
    }

    /// A store with nothing in it.
    pub fn new() -> (s: Self)
        ensures
            s@.connections == Map::<u64, AutoConnection>::empty(),
            s@.targets == Seq::<ReadingTarget>::empty(),
    {
        AutoConnectStore { connections: HashMap::new(), targets: Vec::new() }
    }

    /// A store holding the given connections (each under its own voice channel; a later one
    /// for the same channel wins) and rows, as they were kept.
    pub fn restore(connections: Vec<AutoConnection>, targets: Vec<ReadingTarget>) -> (s: Self)
        ensures
            keyed_by_channel(s@.connections),
            s@.targets == targets@,
            forall|k: u64|
                s@.connections.contains_key(k) <==> exists|i: int|
                    0 <= i < connections@.len() && (#[trigger] connections@[i]).voice_channel_id
                        == k,
    {
        let mut map: HashMap<u64, AutoConnection> = HashMap::new();
        let mut i: usize = 0;
        while i < connections.len()
            invariant
                i <= connections.len(),
                keyed_by_channel(map@),
                forall|k: u64|
                    map@.contains_key(k) <==> exists|j: int|
                        0 <= j < i && (#[trigger] connections@[j]).voice_channel_id == k,
            decreases connections.len() - i,
        {
            let c = connections[i];
            map.insert(c.voice_channel_id, c);
            proof {
                assert forall|k: u64| map@.contains_key(k) implies exists|j: int|
                    0 <= j < i + 1 && (#[trigger] connections@[j]).voice_channel_id == k by {
                    if k == c.voice_channel_id {
                        assert(connections@[i as int].voice_channel_id == k);
                    }
                }
                assert forall|k: u64|
                    (exists|j: int|
                        0 <= j < i + 1 && (#[trigger] connections@[j]).voice_channel_id
                            == k) implies map@.contains_key(k) by {
                    let j = choose|j: int|
                        0 <= j < i + 1 && (#[trigger] connections@[j]).voice_channel_id == k;
                    if j < i {
                    }
                }
            }
            i = i + 1;
        }
        AutoConnectStore { connections: map, targets }
    }

    /// The configuration of voice channel `vc`, if it is auto-connected.
    pub fn find(&self, vc: u64) -> (r: Option<AutoConnection>)
        ensures
            r == (if self@.connections.contains_key(vc) {
                Some(self@.connections[vc])
            } else {
                None
            }),
            keyed_by_channel(self@.connections),
    {
        proof {
            use_type_invariant(self);
        }
        match self.connections.get(&vc) {
            Some(c) => Some(*c),
            None => None,
        }
    }

    /// The text channels stored for voice channel `vc`, in the order of the rows.
    pub fn reading_channels(&self, vc: u64) -> (r: Vec<u64>)
        ensures
            r@ == texts_of(self@.targets, vc),
    {
        let mut r: Vec<u64> = Vec::new();
        let mut i: usize = 0;
        while i < self.targets.len()
            invariant
                i <= self.targets.len(),
                r@ == texts_of(self.targets@.take(i as int), vc),
            decreases self.targets.len() - i,
        {
            let t = self.targets[i];
            assert(self.targets@.take(i + 1).drop_last() =~= self.targets@.take(i as int));
            assert(self.targets@.take(i + 1).last() == t);
            if t.voice_channel_id == vc {
                r.push(t.text_channel_id);
            }
            i = i + 1;
        }
        assert(self.targets@.take(self.targets.len() as int) =~= self.targets@);
        r
    }

    /// Forgets voice channel `vc`: its configuration and every text channel stored for it.
    pub fn remove_channel(&mut self, vc: u64)
        ensures
            keyed_by_channel(final(self)@.connections),
            final(self)@.connections == old(self)@.connections.remove(vc),
            final(self)@.targets == without_vc(old(self)@.targets, vc),
    {
        proof {
            use_type_invariant(&*self);
        }
        let mut conns: HashMap<u64, AutoConnection> = HashMap::new();
        std::mem::swap(&mut conns, &mut self.connections);
        conns.remove(&vc);
        self.connections = conns;
        let mut kept: Vec<ReadingTarget> = Vec::new();
        let mut i: usize = 0;
        while i < self.targets.len()
            invariant
                i <= self.targets.len(),
                kept@ == without_vc(self.targets@.take(i as int), vc),
            decreases self.targets.len() - i,
        {
            let t = self.targets[i];
            assert(self.targets@.take(i + 1) =~= self.targets@.take(i as int).push(t));
            proof {
                lemma_without_vc_push(self.targets@.take(i as int), vc, t);
            }
            if t.voice_channel_id != vc {
                kept.push(t);
            }
            i = i + 1;
        }
        assert(self.targets@.take(self.targets.len() as int) =~= self.targets@);
        self.targets = kept;
    }

    /// Stores voice channel `vc` of `guild` as auto-connected, sending notices to `notify` and
    /// reading `reading`, in place of whatever was stored for it.
    pub fn save(&mut self, guild: u64, vc: u64, notify: u64, reading: &Vec<u64>)
        ensures
            keyed_by_channel(final(self)@.connections),
            final(self)@.connections == old(self)@.connections.remove(vc).insert(
                vc,
                AutoConnection { voice_channel_id: vc, guild_id: guild, notify_channel_id: notify },
            ),
            final(self)@.targets == without_vc(old(self)@.targets, vc) + target_rows(
                guild,
                vc,
                reading@,
            ),
    {
        self.remove_channel(vc);
        let mut conns: HashMap<u64, AutoConnection> = HashMap::new();
        std::mem::swap(&mut conns, &mut self.connections);
        conns.insert(
            vc,
            AutoConnection { voice_channel_id: vc, guild_id: guild, notify_channel_id: notify },
        );
        self.connections = conns;
        let mut rows: Vec<ReadingTarget> = Vec::new();
        std::mem::swap(&mut rows, &mut self.targets);
        let ghost base = rows@;
        let mut i: usize = 0;
        while i < reading.len()
            invariant
                i <= reading.len(),
                rows@ == base + target_rows(guild, vc, reading@.take(i as int)),
            decreases reading.len() - i,
        {
            let row = ReadingTarget { voice_channel_id: vc, text_channel_id: reading[i], guild_id: guild };
            rows.push(row);
            assert(target_rows(guild, vc, reading@.take(i + 1)) =~= target_rows(
                guild,
                vc,
                reading@.take(i as int),
            ).push(row));
            assert(base + target_rows(guild, vc, reading@.take(i + 1)) =~= (base + target_rows(
                guild,
                vc,
                reading@.take(i as int),
            )).push(row));
            i = i + 1;
        }
        assert(reading@.take(reading.len() as int) =~= reading@);
        self.targets = rows;
    }
}

/// After a voice channel's configuration is saved, it is auto-connected with the notice
/// channel given, the text channels read for it are exactly those given, in order, and
/// every other voice channel keeps its text channels.
pub proof fn law_saved_configuration_is_read_back(
    t: Seq<ReadingTarget>,
    m: Map<u64, AutoConnection>,
    guild: u64,
    vc: u64,
    notify: u64,
    reading: Seq<u64>,
    other: u64,
)
    ensures
        ({
            let after = without_vc(t, vc) + target_rows(guild, vc, reading);
            let conns = m.remove(vc).insert(
                vc,
                AutoConnection { voice_channel_id: vc, guild_id: guild, notify_channel_id: notify },
            );
            &&& texts_of(after, vc) == reading
            &&& conns[vc].notify_channel_id == notify
            &&& other != vc ==> texts_of(after, other) == texts_of(t, other)
            &&& other != vc ==> conns.contains_key(other) == m.contains_key(other)
        }),
{
    lemma_texts_of_add(without_vc(t, vc), target_rows(guild, vc, reading), vc);
    lemma_texts_of_without(t, vc, vc);
    lemma_texts_of_rows(guild, vc, reading, vc);
    assert(Seq::<u64>::empty() + reading =~= reading);
    lemma_texts_of_add(without_vc(t, vc), target_rows(guild, vc, reading), other);
    lemma_texts_of_without(t, vc, other);
    lemma_texts_of_rows(guild, vc, reading, other);
    assert(texts_of(t, other) + Seq::<u64>::empty() =~= texts_of(t, other));
}

/// After a voice channel is removed, it is no longer auto-connected and no text channel is
/// read for it, while every other voice channel keeps its text channels.
pub proof fn law_removed_channel_is_forgotten(t: Seq<ReadingTarget>, m: Map<u64, AutoConnection>, vc: u64, other: u64)
    ensures
        !m.remove(vc).contains_key(vc),
        texts_of(without_vc(t, vc), vc) == Seq::<u64>::empty(),
        other != vc ==> texts_of(without_vc(t, vc), other) == texts_of(t, other),
{
    lemma_texts_of_without(t, vc, vc);
    lemma_texts_of_without(t, vc, other);
}

// ---------------------------------------------------------------------------
// The dialog that sets a voice channel up
// ---------------------------------------------------------------------------

/// The text channels read after a selection: those selected, and the voice channel's own
/// chat where it was not among them.
pub open spec fn with_voice_channel(values: Seq<u64>, vc: u64) -> Seq<u64> {
    if values.contains(vc) {
        values
    } else {
        values.push(vc)
    }
}

/// The dialog that sets up voice channel `vc`: the notice channel chosen so far, and the
/// text channels to read (at first the voice channel's own chat).
pub struct ConfigDialog {
    vc: u64,
    notify: Option<u64>,
    reading: Vec<u64>,
}

/// The abstract view of the dialog.
pub struct ConfigDialogView {
    pub vc: u64,
    pub notify: Option<u64>,
    pub reading: Seq<u64>,
}

impl View for ConfigDialog {
    type V = ConfigDialogView;

    closed spec fn view(&self) -> ConfigDialogView {
        ConfigDialogView { vc: self.vc, notify: self.notify, reading: self.reading@ }
    }
}

/// What happened in the dialog. A selection carries the channels chosen, or nothing where
/// the interaction held no channel selection.
pub enum ConfigEvent {
    NotifySelected(Option<Vec<u64>>),
    ReadingSelected(Option<Vec<u64>>),
    SavePressed,
    CancelPressed,
    TimedOut,
}

/// What the dialog does next.
pub enum ConfigAction {
    /// Acknowledge the selection and wait again.
    Acknowledge,
    /// Close the dialog with this message.
    Cancelled(String),
    /// Ask, privately, for a notice channel first, and wait again.
    NeedNotify(String),
    /// Store this configuration and close the dialog with the reply.
    Save { notify: u64, reading: Vec<u64>, reply: String },
    /// Stop waiting, saying nothing.
    Stop,
}

/// The reply after a voice channel's configuration was saved.
pub open spec fn saved_text(mention: Seq<char>) -> Seq<char> {
    mention + "の設定を保存しました。"@
}

impl ConfigDialog {
    /// The voice channel's own chat is always among the channels read.
    #[verifier::type_invariant]
    spec fn well_formed(&self) -> bool {
        self.reading@.contains(self.vc)
    }

    /// The voice channel being set up.
    pub fn vc(&self) -> (r: u64)
        ensures
            r == self@.vc,
    {
        self.vc
    }

    /// The notice channel chosen so far.
    pub fn notify(&self) -> (r: Option<u64>)
        ensures
            r == self@.notify,
    {
        self.notify
    }

    /// The text channels to read, which always hold the voice channel's own chat.
    pub fn reading(&self) -> (r: &Vec<u64>)
        ensures
            r@ == self@.reading,
            r@.contains(self@.vc),
    {
        proof {
            use_type_invariant(self);
        }
        &self.reading
    }

    /// A fresh dialog for voice channel `vc`.
    pub fn new(vc: u64) -> (d: Self)
        ensures
            d@.vc == vc,
            d@.notify is None,
            d@.reading == seq![vc],
    {
        let mut reading: Vec<u64> = Vec::new();
        reading.push(vc);
        assert(reading@[0] == vc);
        ConfigDialog { vc, notify: None, reading }
    }

    /// Takes the dialog one step: a selection of the notice channel keeps the first channel
    /// chosen; a selection of channels to read keeps them, with the voice channel's own chat
    /// added where missing; saving needs a notice channel; cancelling or a timeout ends it.
    pub fn step(&mut self, e: ConfigEvent, mention: &str) -> (a: ConfigAction)
        ensures
            final(self)@.reading.contains(final(self)@.vc),
            final(self)@.vc == old(self)@.vc,
            match e {
                ConfigEvent::NotifySelected(v) => a is Acknowledge && final(self)@.reading == old(self)@.reading && final(self)@.notify == match v {
                    Some(vals) => if vals@.len() > 0 {
                        Some(vals@[0])
                    } else {
                        None
                    },
                    None => old(self)@.notify,
                },
                ConfigEvent::ReadingSelected(v) => a is Acknowledge && final(self)@.notify == old(self)@.notify && final(self)@.reading == match v {
                    Some(vals) => with_voice_channel(vals@, old(self)@.vc),
                    None => old(self)@.reading,
                },
                ConfigEvent::SavePressed => final(self)@.notify == old(self)@.notify
                    && final(self)@.reading == old(self)@.reading && match old(self)@.notify {
                    Some(n) => a matches ConfigAction::Save { notify, reading, reply } && notify
                        == n && reading@ == old(self)@.reading && reply@ == saved_text(mention@),
                    None => a matches ConfigAction::NeedNotify(m) && m@
                        == "通知送信チャンネルを選択してください。"@,
                },
                ConfigEvent::CancelPressed => (a matches ConfigAction::Cancelled(m) && m@
                    == "設定を中断しました。"@) && final(self)@.notify == old(self)@.notify
                    && final(self)@.reading == old(self)@.reading,
                ConfigEvent::TimedOut => a is Stop && final(self)@.notify == old(self)@.notify
                    && final(self)@.reading == old(self)@.reading,
            },
    {
        proof {
            use_type_invariant(&*self);
        }
        match e {
            ConfigEvent::NotifySelected(v) => {
                if let Some(vals) = v {
                    self.notify = if vals.len() > 0 {
                        Some(vals[0])
                    } else {
                        None
                    };
                }
                ConfigAction::Acknowledge
            },
            ConfigEvent::ReadingSelected(v) => {
                if let Some(vals) = v {
                    let mut ids = vals;
                    if !contains_id(&ids, self.vc) {
                        ids.push(self.vc);
                    }
                    assert(ids@.contains(self.vc)) by {
                        if vals@.contains(self.vc) {
                        } else {
                            assert(ids@[ids@.len() - 1] == self.vc);
                        }
                    }
                    self.reading = ids;
                }
                ConfigAction::Acknowledge
            },
            ConfigEvent::SavePressed => match self.notify {
                Some(n) => {
                    let mut reply = String::from_str(mention);
                    reply.append("の設定を保存しました。");
                    ConfigAction::Save { notify: n, reading: self.reading.clone(), reply }
                },
                None => ConfigAction::NeedNotify(
                    String::from_str("通知送信チャンネルを選択してください。"),
                ),
            },
            ConfigEvent::CancelPressed => ConfigAction::Cancelled(
                String::from_str("設定を中断しました。"),
            ),
            ConfigEvent::TimedOut => ConfigAction::Stop,
        }
    }
}

/// Whatever happens in the dialog, the voice channel's own chat stays among the channels
/// read, so a saved configuration always reads it.
pub proof fn law_voice_chat_is_always_read(values: Seq<u64>, vc: u64)
    ensures
        with_voice_channel(values, vc).contains(vc),
        values.contains(vc) ==> with_voice_channel(values, vc) == values,
{
    if !values.contains(vc) {
        assert(values.push(vc)[values.len() as int] == vc);
    }
}

/// The first reply of the command: a voice channel already configured is offered for
/// editing or removal; a new one is added.
pub open spec fn prompt_text(mention: Seq<char>, existing: bool) -> Seq<char> {
    if existing {
        mention + "は既に自動接続の対象です。操作を選択してください。"@
    } else {
        mention + "を自動接続の対象に追加します。設定を入力してください。"@
    }
}

/// The first reply of the command for a voice channel that is (or is not) configured.
pub fn auto_connect_prompt(mention: &str, existing: bool) -> (r: String)
    ensures
        r@ == prompt_text(mention@, existing),
{
    let mut s = String::from_str(mention);
    if existing {
        s.append("は既に自動接続の対象です。操作を選択してください。");
    } else {
        s.append("を自動接続の対象に追加します。設定を入力してください。");
    }
    s
}

/// What an administrator chose for a voice channel that is already configured.
pub enum ExistingChoice {
    /// Remove it, with the reply.
    Delete(String),
    /// Edit it in a fresh dialog, with the reply.
    Edit(String),
    /// No choice in time: the reply.
    TimedOut(String),
}

/// The reply to the choice made for a configured voice channel: removal when the delete
/// button was pressed, editing for any other button, and a notice when none was in time.
pub fn existing_choice(pressed_delete: Option<bool>, mention: &str) -> (c: ExistingChoice)
    ensures
        match pressed_delete {
            Some(true) => c matches ExistingChoice::Delete(m) && m@ == mention@
                + "を自動接続対象から削除しました。"@,
            Some(false) => c matches ExistingChoice::Edit(m) && m@ == mention@
                + "の設定を編集します。設定を入力してください。"@,
            None => c matches ExistingChoice::TimedOut(m) && m@ == "タイムアウトしました。"@,
        },
{
    match pressed_delete {
        Some(true) => {
            let mut s = String::from_str(mention);
            s.append("を自動接続対象から削除しました。");
            ExistingChoice::Delete(s)
        },
        Some(false) => {
            let mut s = String::from_str(mention);
            s.append("の設定を編集します。設定を入力してください。");
            ExistingChoice::Edit(s)
        },
        None => ExistingChoice::TimedOut(String::from_str("タイムアウトしました。")),
    }
}

// ---------------------------------------------------------------------------
// Joining by itself
// ---------------------------------------------------------------------------

/// The bot joins an auto-connected voice channel: where notices go and what is read.
pub struct AutoJoin {
    pub voice_channel: u64,
    pub notify_channel: u64,
    pub reading: Vec<u64>,
}

/// Decides whether the bot, not connected in the guild, joins the voice channel that a
/// member just entered: it does when that channel is auto-connected and the member is the
/// only one there who is not a bot. The notices then go to the configured channel and the
/// stored text channels are read.
pub fn auto_join_plan(store: &AutoConnectStore, new_channel: Option<u64>, humans: usize) -> (r: Option<AutoJoin>)
    ensures
        match new_channel {
            Some(ch) => if store@.connections.contains_key(ch) && humans == 1 {
                r matches Some(j) && j.voice_channel == ch && j.notify_channel
                    == store@.connections[ch].notify_channel_id && j.reading@ == texts_of(
                    store@.targets,
                    ch,
                )
            } else {
                r is None
            },
            None => r is None,
        },
{
    match new_channel {
        None => None,
        Some(ch) => match store.find(ch) {
            None => None,
            Some(conn) => {
                if humans != 1 {
                    return None;
                }
                let reading = store.reading_channels(conn.voice_channel_id);
                Some(AutoJoin { voice_channel: ch, notify_channel: conn.notify_channel_id, reading })
            },
        },
    }
}

/// The context that a connection made by an auto join starts with: notices go to the
/// configured channel, and the stored text channels are read.
pub fn auto_join_context(j: &AutoJoin) -> (c: VoiceContextInfo)
    ensures
        c@ == (VoiceContextView { command_channel: j.notify_channel, text_channels: j.reading@.to_set() }),
{
    let mut set: HashSet<u64> = HashSet::new();
    let mut i: usize = 0;
    while i < j.reading.len()
        invariant
            i <= j.reading.len(),
            set@ == j.reading@.take(i as int).to_set(),
        decreases j.reading.len() - i,
    {
        set.insert(j.reading[i]);
        assert(j.reading@.take(i + 1) =~= j.reading@.take(i as int).push(j.reading@[i as int]));
        proof {
            j.reading@.take(i as int).lemma_push_to_set_commute(j.reading@[i as int]);
        }
        i = i + 1;
    }
    assert(j.reading@.take(j.reading.len() as int) =~= j.reading@);
    VoiceContextInfo { command_channel: j.notify_channel, text_channels: set }
}

} // verus!
