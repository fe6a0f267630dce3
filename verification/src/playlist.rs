//! The queue of songs: what plays, what comes next and what came before, and the
//! interruption of it all while the agent is spoken to.
use vstd::prelude::*;
use crate::json;
use crate::json::{Json, JsonTree, NumberTree};
use crate::music;
use crate::songs;
use crate::songs::{Song, SongModel};
use crate::text;

verus! {

/// A song with the URL that it plays from.
#[derive(Debug)]
pub struct QueueItem {
    pub song: Song,
    pub url: String,
}

/// A song with its URL, as a mathematical value.
pub struct Item {
    pub song: SongModel,
    pub url: Seq<char>,
}

impl View for QueueItem {
    type V = Item;

    open spec fn view(&self) -> Item {
        Item { song: self.song@, url: self.url@ }
    }
}

/// A list of songs with their URLs as mathematical values.
pub open spec fn items_of(items: Seq<QueueItem>) -> Seq<Item> {
    items.map_values(|i: QueueItem| i@)
}

impl QueueItem {
    /// A copy.
    pub fn copy(&self) -> (r: QueueItem)
        ensures
            r@ == self@,
    {
        QueueItem { song: self.song.copy(), url: self.url.clone() }
    }
}

/// A copy of a list of songs.
pub fn copy_queue(items: &Vec<QueueItem>) -> (r: Vec<QueueItem>)
    ensures
        items_of(r@) == items_of(items@),
{
    let mut out: Vec<QueueItem> = Vec::new();
    let mut i: usize = 0;
    while i < items.len()
        invariant
            i <= items@.len(),
            out@.len() == i,
            forall|j: int| 0 <= j < i ==> (#[trigger] out@[j])@ == items@[j]@,
        decreases items@.len() - i,
    {
        out.push(items[i].copy());
        i = i + 1;
    }
    assert(items_of(out@) =~= items_of(items@));
    out
}

/// What happens to music while the agent is spoken to.
#[derive(Debug, Clone, Copy, PartialEq, Eq, Structural)]
pub enum InterruptionAction {
    Pause,
    Duck,
    Keep,
}

/// What a setting says happens to music.
pub open spec fn interruption_of(mode: Seq<char>) -> InterruptionAction {
    let mode = text::trimmed(mode);
    if mode == "duck"@ || mode == "lower_volume"@ || mode == "volume"@ {
        InterruptionAction::Duck
    } else if mode == "none"@ || mode == "keep_playing"@ {
        InterruptionAction::Keep
    } else {
        InterruptionAction::Pause
    }
}

/// What a setting says happens to music.
pub fn interruption_mode(mode: &str) -> (r: InterruptionAction)
    ensures
        r == interruption_of(mode@),
{
    let mode: String = text::trim(mode);
    let mode: &str = mode.as_str();
    if text::same_text(mode, "duck") || text::same_text(mode, "lower_volume") || text::same_text(
        mode,
        "volume",
    ) {
        InterruptionAction::Duck
    } else if text::same_text(mode, "none") || text::same_text(mode, "keep_playing") {
        InterruptionAction::Keep
    } else {
        InterruptionAction::Pause
    }
}

/// The state of the player.
#[derive(Debug)]
pub struct MusicState {
    pub current: Option<QueueItem>,
    pub queue: Vec<QueueItem>,
    pub history: Vec<QueueItem>,
    pub paused: bool,
    pub interruption: Option<InterruptionAction>,
}

/// The state of the player, as a mathematical value.
pub struct Player {
    pub current: Option<Item>,
    pub queue: Seq<Item>,
    pub history: Seq<Item>,
    pub paused: bool,
    pub interruption: Option<InterruptionAction>,
}

/// An optional song as a mathematical value.
pub open spec fn opt_item(item: Option<QueueItem>) -> Option<Item> {
    match item {
        Some(item) => Some(item@),
        None => None,
    }
}

impl View for MusicState {
    type V = Player;

    open spec fn view(&self) -> Player {
        Player {
            current: opt_item(self.current),
            queue: items_of(self.queue@),
            history: items_of(self.history@),
            paused: self.paused,
            interruption: self.interruption,
        }
    }
}

/// A player that nothing has happened to.
pub open spec fn silent_player() -> Player {
    Player {
        current: None,
        queue: Seq::empty(),
        history: Seq::empty(),
        paused: false,
        interruption: None,
    }
}

/// A player that goes on to the next song; what played goes to the history.
pub open spec fn advanced(p: Player) -> Player {
    Player {
        current: Some(p.queue[0]),
        queue: p.queue.skip(1),
        history: match p.current {
            Some(current) => p.history.push(current),
            None => p.history,
        },
        paused: false,
        ..p
    }
}

/// A player that goes back to the song before; what played is the next again.
pub open spec fn stepped_back(p: Player) -> Player {
    Player {
        current: Some(p.history.last()),
        queue: match p.current {
            Some(current) => seq![current] + p.queue,
            None => p.queue,
        },
        history: p.history.drop_last(),
        paused: false,
        ..p
    }
}

/// A player whose music was interrupted, where it still was there to be.
pub open spec fn interrupted_player(p: Player, mode: InterruptionAction) -> Player {
    if p.current is Some {
        Player {
            paused: p.paused || mode == InterruptionAction::Pause,
            interruption: Some(mode),
            ..p
        }
    } else {
        p
    }
}

/// A player whose interruption was taken.
pub open spec fn uninterrupted(p: Player) -> Player {
    Player { interruption: None, ..p }
}

/// A player whose music goes on, where there is any.
pub open spec fn resumed_player(p: Player) -> Player {
    if p.current is Some {
        Player { paused: false, ..p }
    } else {
        p
    }
}

/// How an interruption begins.
#[derive(Debug, Clone, Copy, PartialEq, Eq, Structural)]
pub enum Interruption {
    /// Music is interrupted already.
    Already,
    /// There is nothing to interrupt.
    Nothing,
    /// Do this to music.
    Perform(InterruptionAction),
}

impl MusicState {
    /// A player that nothing has happened to.
    pub fn new() -> (r: Self)
        ensures
            r@ == silent_player(),
    {
        let r = MusicState {
            current: None,
            queue: Vec::new(),
            history: Vec::new(),
            paused: false,
            interruption: None,
        };
        assert(r@.queue =~= Seq::empty());
        assert(r@.history =~= Seq::empty());
        r
    }

    /// Plays one song in place of all others.
    pub fn play_only(&mut self, item: QueueItem)
        ensures
            final(self)@ == (Player {
                current: Some(item@),
                queue: Seq::empty(),
                history: Seq::empty(),
                paused: false,
                ..old(self)@
            }),
    {
        self.current = Some(item);
        self.queue.clear();
        self.history.clear();
        self.paused = false;
        assert(self@.queue =~= Seq::empty());
        assert(self@.history =~= Seq::empty());
    }

    /// Puts songs at the end of the queue. Says whether to start with the first
    /// of the queue now, because nothing plays.
    pub fn enqueue(&mut self, items: &Vec<QueueItem>) -> (start_now: bool)
        ensures
            start_now == (old(self)@.current is None),
            final(self)@ == (Player {
                queue: old(self)@.queue + items_of(items@),
                ..old(self)@
            }),
    {
        let ghost before = self@.queue;
        let mut added: Vec<QueueItem> = copy_queue(items);
        let ghost more = added@;
        self.queue.append(&mut added);
        assert(self@.queue =~= before + items_of(more));
        self.current.is_none()
    }

    /// Takes songs as the queue in place of all that was.
    pub fn replace_queue(&mut self, items: Vec<QueueItem>)
        ensures
            final(self)@ == (Player {
                current: None,
                queue: items_of(items@),
                history: Seq::empty(),
                paused: false,
                ..old(self)@
            }),
    {
        self.current = None;
        self.history.clear();
        self.queue = items;
        self.paused = false;
        assert(self@.history =~= Seq::empty());
    }

    /// Goes on to the next song, and gives it to be played.
    pub fn play_next(&mut self) -> (r: Result<QueueItem, String>)
        ensures
            if old(self)@.queue.len() == 0 {
                &&& r matches Err(e) && e@ == "queue is empty"@
                &&& final(self)@ == old(self)@
            } else {
                &&& r matches Ok(item) && item@ == old(self)@.queue[0]
                &&& final(self)@ == advanced(old(self)@)
            },
    {
        if self.queue.len() == 0 {
            return Err("queue is empty".to_owned());
        }
        let ghost begun = self@;
        let item: QueueItem = self.queue.remove(0);
        assert(items_of(self.queue@) =~= begun.queue.skip(1));
        let out: QueueItem = item.copy();
        let current: Option<QueueItem> = self.current.take();
        if let Some(current) = current {
            let ghost before = self.history@;
            self.history.push(current);
            assert(items_of(self.history@) =~= items_of(before).push(current@));
        }
        self.current = Some(item);
        self.paused = false;
        Ok(out)
    }

    /// Goes back to the song before, and gives it to be played.
    pub fn play_previous(&mut self) -> (r: Result<QueueItem, String>)
        ensures
            if old(self)@.history.len() == 0 {
                &&& r matches Err(e) && e@ == "history is empty"@
                &&& final(self)@ == old(self)@
            } else {
                &&& r matches Ok(item) && item@ == old(self)@.history.last()
                &&& final(self)@ == stepped_back(old(self)@)
            },
    {
        let ghost begun = self@;
        let item: QueueItem = match self.history.pop() {
            Some(item) => item,
            None => {
                return Err("history is empty".to_owned());
            },
        };
        assert(items_of(self.history@) =~= begun.history.drop_last());
        let out: QueueItem = item.copy();
        let current: Option<QueueItem> = self.current.take();
        if let Some(current) = current {
            let ghost before = self.queue@;
            self.queue.insert(0, current);
            assert(items_of(self.queue@) =~= seq![current@] + items_of(before));
        }
        self.current = Some(item);
        self.paused = false;
        Ok(out)
    }

    /// Whether a song plays or is paused.
    pub fn has_current(&self) -> (r: bool)
        ensures
            r == (self@.current is Some),
    {
        self.current.is_some()
    }

    /// Notes that music was paused or goes on.
    pub fn set_paused(&mut self, paused: bool)
        ensures
            final(self)@ == (Player { paused, ..old(self)@ }),
    {
        self.paused = paused;
    }

    /// Forgets everything.
    pub fn clear(&mut self)
        ensures
            final(self)@ == silent_player(),
    {
        self.current = None;
        self.queue.clear();
        self.history.clear();
        self.paused = false;
        self.interruption = None;
        assert(self@.queue =~= Seq::empty());
        assert(self@.history =~= Seq::empty());
    }

    /// The agent is about to be spoken to: what is to be done to music.
    pub fn begin_interruption(&self, mode: InterruptionAction) -> (r: Interruption)
        ensures
            r == if self@.interruption is Some {
                Interruption::Already
            } else if self@.current is None || self@.paused {
                Interruption::Nothing
            } else {
                Interruption::Perform(mode)
            },
    {
        if self.interruption.is_some() {
            Interruption::Already
        } else if self.current.is_none() || self.paused {
            Interruption::Nothing
        } else {
            Interruption::Perform(mode)
        }
    }

    /// Notes that music was interrupted. Says whether it still was there to be.
    pub fn interrupted(&mut self, mode: InterruptionAction) -> (r: bool)
        ensures
            r == (old(self)@.current is Some),
            final(self)@ == interrupted_player(old(self)@, mode),
    {
        if self.current.is_none() {
            return false;
        }
        if mode == InterruptionAction::Pause {
            self.paused = true;
        }
        self.interruption = Some(mode);
        true
    }

    /// Takes the interruption, to be undone.
    pub fn take_interruption(&mut self) -> (r: Option<InterruptionAction>)
        ensures
            r == old(self)@.interruption,
            final(self)@ == uninterrupted(old(self)@),
    {
        let taken: Option<InterruptionAction> = self.interruption;
        self.interruption = None;
        taken
    }

    /// Notes that music which an interruption had paused goes on.
    pub fn resumed(&mut self)
        ensures
            final(self)@ == resumed_player(old(self)@),
    {
        if self.current.is_some() {
            self.paused = false;
        }
    }
}

// -------------------------------------------------------------------- answers

/// The answer that a song plays.
pub open spec fn playing_tree(song: SongModel) -> JsonTree {
    JsonTree::Object(
        seq![("playing"@, JsonTree::Bool(true)), ("song"@, songs::song_tree(song))],
    )
}

/// The answer that a song plays, and how many follow.
pub open spec fn playing_queue_tree(song: SongModel, queued: u64) -> JsonTree {
    JsonTree::Object(
        seq![
            ("playing"@, JsonTree::Bool(true)),
            ("song"@, songs::song_tree(song)),
            ("queue_size"@, JsonTree::Number(NumberTree::Unsigned(queued))),
        ],
    )
}

/// The answer that a song plays.
pub fn playing_json(song: &Song) -> (r: Json)
    ensures
        json::tree(r) == playing_tree(song@),
{
    let mut out: Vec<(String, Json)> = Vec::new();
    out.push(json::entry("playing", Json::Bool(true)));
    out.push(json::entry("song", songs::song_json(song)));
    assert(json::members_tree(out@) =~= playing_tree(song@)->Object_0);
    json::object(out)
}

/// The answer that a song plays, and how many follow.
pub fn playing_queue_json(song: &Song, queued: usize) -> (r: Json)
    ensures
        json::tree(r) == playing_queue_tree(song@, queued as u64),
{
    let mut out: Vec<(String, Json)> = Vec::new();
    out.push(json::entry("playing", Json::Bool(true)));
    out.push(json::entry("song", songs::song_json(song)));
    out.push(json::entry("queue_size", json::number_json(queued as u64)));
    assert(json::members_tree(out@) =~= playing_queue_tree(song@, queued as u64)->Object_0);
    json::object(out)
}

/// The answer that a song could not be played.
pub fn unplayable_json(message: &str, song: &Song) -> (r: Json)
    ensures
        json::tree(r) == JsonTree::Object(
            seq![("error"@, JsonTree::Text(message@)), ("song"@, songs::song_tree(song@))],
        ),
{
    let mut out: Vec<(String, Json)> = Vec::new();
    out.push(json::entry("error", json::text_json(message)));
    out.push(json::entry("song", songs::song_json(song)));
    assert(json::members_tree(out@) =~= seq![
        ("error"@, JsonTree::Text(message@)),
        ("song"@, songs::song_tree(song@)),
    ]);
    json::object(out)
}

/// The songs of a list.
pub open spec fn songs_of(items: Seq<Item>) -> Seq<SongModel> {
    items.map_values(|i: Item| i.song)
}

/// The songs of the first items of a list, as a JSON value.
pub open spec fn first_songs_tree(items: Seq<Item>, most: int) -> JsonTree {
    songs::songs_tree(songs_of(if items.len() <= most {
        items
    } else {
        items.take(most)
    }))
}

fn first_songs_json(items: &Vec<QueueItem>, most: usize) -> (r: Json)
    ensures
        json::tree(r) == first_songs_tree(items_of(items@), most as int),
{
    let ghost all = items_of(items@);
    let n: usize = if items.len() < most {
        items.len()
    } else {
        most
    };
    let mut out: Vec<Json> = Vec::new();
    let mut i: usize = 0;
    while i < n
        invariant
            i <= n <= items@.len(),
            out@.len() == i,
            forall|j: int|
                0 <= j < i ==> json::tree(#[trigger] out@[j]) == songs::song_tree(
                    items@[j].song@,
                ),
        decreases n - i,
    {
        out.push(songs::song_json(&items[i].song));
        i = i + 1;
    }
    assert(json::list_tree(out@) =~= first_songs_tree(all, most as int)->List_0);
    json::list(out)
}

/// The answer that songs were put into the queue.
pub open spec fn added_tree(items: Seq<Item>) -> JsonTree {
    JsonTree::Object(seq![("added"@, songs::songs_tree(songs_of(items)))])
}

/// The answer that songs were put into the queue.
pub fn added_json(items: &Vec<QueueItem>) -> (r: Json)
    ensures
        json::tree(r) == added_tree(items_of(items@)),
{
    let listed: Json = first_songs_json(items, items.len());
    let mut out: Vec<(String, Json)> = Vec::new();
    out.push(json::entry("added", listed));
    assert(json::members_tree(out@) =~= added_tree(items_of(items@))->Object_0);
    json::object(out)
}

/// How a player stands: what plays, and the first ten of the queue.
pub open spec fn status_tree(p: Player) -> JsonTree {
    JsonTree::Object(
        seq![
            ("playing"@, JsonTree::Bool(p.current is Some)),
            ("paused"@, JsonTree::Bool(p.paused)),
            ("interrupted"@, JsonTree::Bool(p.interruption is Some)),
            (
                "current"@,
                match p.current {
                    Some(item) => songs::song_tree(item.song),
                    None => JsonTree::Null,
                },
            ),
            ("queue_size"@, JsonTree::Number(NumberTree::Unsigned(p.queue.len() as u64))),
            ("queue"@, first_songs_tree(p.queue, 10)),
        ],
    )
}

impl MusicState {
    /// How this player stands.
    pub fn status(&self) -> (r: Json)
        ensures
            json::tree(r) == status_tree(self@),
    {
        let mut out: Vec<(String, Json)> = Vec::new();
        out.push(json::entry("playing", Json::Bool(self.current.is_some())));
        out.push(json::entry("paused", Json::Bool(self.paused)));
        out.push(json::entry("interrupted", Json::Bool(self.interruption.is_some())));
        out.push(
            json::entry(
                "current",
                match &self.current {
                    Some(item) => songs::song_json(&item.song),
                    None => Json::Null,
                },
            ),
        );
        out.push(json::entry("queue_size", json::number_json(self.queue.len() as u64)));
        out.push(json::entry("queue", first_songs_json(&self.queue, 10)));
        assert(json::members_tree(out@) =~= status_tree(self@)->Object_0);
        json::object(out)
    }
}

// -------------------------------------------------------------------- lookups

/// What to look up: a song by its identifier, or the first that a search finds.
#[derive(Debug)]
pub enum Lookup {
    ById(String),
    ByQuery(String),
}

/// What to look up, as a mathematical value.
pub enum LookupModel {
    ById(Seq<char>),
    ByQuery(Seq<char>),
}

impl View for Lookup {
    type V = LookupModel;

    open spec fn view(&self) -> LookupModel {
        match self {
            Lookup::ById(id) => LookupModel::ById(id@),
            Lookup::ByQuery(query) => LookupModel::ByQuery(query@),
        }
    }
}

/// What to look up for a query and an identifier: the identifier where it is not
/// blank.
pub open spec fn lookup_of(query: Seq<char>, song_id: Seq<char>) -> LookupModel {
    if text::is_blank(song_id) {
        LookupModel::ByQuery(query)
    } else {
        LookupModel::ById(text::trimmed(song_id))
    }
}

/// What to look up for a query and an identifier.
pub fn resolve_one(query: &str, song_id: &str) -> (r: Lookup)
    ensures
        r@ == lookup_of(query@, song_id@),
{
    if text::blank(song_id) {
        Lookup::ByQuery(query.to_owned())
    } else {
        Lookup::ById(text::trim(song_id))
    }
}

/// The first song that a search found.
pub fn first_song(found: &Vec<Song>) -> (r: Result<Song, String>)
    ensures
        match r {
            Ok(song) => found@.len() > 0 && song@ == found@[0]@,
            Err(e) => found@.len() == 0 && e@ == "no songs found"@,
        },
{
    if found.len() == 0 {
        Err("no songs found".to_owned())
    } else {
        Ok(found[0].copy())
    }
}

/// Whether a character parts the entries of a list.
pub open spec fn is_separator(c: char) -> bool {
    c == '\n' || c == ';' || c == '；'
}

/// A text cut at every separator.
pub open spec fn pieces(s: Seq<char>) -> Seq<Seq<char>>
    decreases s.len(),
{
    if s.len() == 0 {
        seq![Seq::empty()]
    } else {
        let before = pieces(s.drop_last());
        if is_separator(s.last()) {
            before.push(Seq::empty())
        } else {
            before.drop_last().push(before.last().push(s.last()))
        }
    }
}

/// The pieces that are not blank, without white space around them.
pub open spec fn entries(items: Seq<Seq<char>>) -> Seq<Seq<char>>
    decreases items.len(),
{
    if items.len() == 0 {
        Seq::empty()
    } else {
        let before = entries(items.drop_last());
        if text::is_blank(items.last()) {
            before
        } else {
            before.push(text::trimmed(items.last()))
        }
    }
}

proof fn lemma_pieces_not_empty(s: Seq<char>)
    ensures
        pieces(s).len() >= 1,
    decreases s.len(),
{
    if s.len() > 0 {
        lemma_pieces_not_empty(s.drop_last());
    }
}

fn push_entry(out: &mut Vec<String>, piece: &str)
    ensures
        text::texts(final(out)@) == if text::is_blank(piece@) {
            text::texts(old(out)@)
        } else {
            text::texts(old(out)@).push(text::trimmed(piece@))
        },
{
    let ghost before = out@;
    let entry: String = text::trim(piece);
    if !entry.as_str().is_empty() {
        out.push(entry);
        assert(text::texts(out@) =~= text::texts(before).push(text::trimmed(piece@)));
    }
}

/// The entries of a list that is written in one text.
pub fn split_many(s: &str) -> (r: Vec<String>)
    ensures
        text::texts(r@) == entries(pieces(s@)),
{
    let chars: Vec<char> = text::chars_of(s);
    let mut out: Vec<String> = Vec::new();
    let mut piece: String = String::new();
    let mut i: usize = 0;
    proof {
        assert(s@.take(0) =~= Seq::empty());
        assert(pieces(s@.take(0)).drop_last() =~= Seq::empty());
        assert(text::texts(out@) =~= Seq::empty());
    }
    while i < chars.len()
        invariant
            i <= chars@.len(),
            chars@ == s@,
            piece@ == pieces(s@.take(i as int)).last(),
            text::texts(out@) == entries(pieces(s@.take(i as int)).drop_last()),
        decreases chars@.len() - i,
    {
        let c: char = chars[i];
        let ghost before = pieces(s@.take(i as int));
        let ghost after = pieces(s@.take(i + 1));
        proof {
            lemma_pieces_not_empty(s@.take(i as int));
            assert(s@.take(i + 1).drop_last() =~= s@.take(i as int));
            assert(s@.take(i + 1).last() == c);
            assert(before.drop_last().push(before.last()) =~= before);
        }
        if c == '\n' || c == ';' || c == '；' {
            push_entry(&mut out, piece.as_str());
            piece = String::new();
            assert(after.drop_last() =~= before);
        } else {
            piece.push(c);
            assert(after.drop_last() =~= before.drop_last());
        }
        i = i + 1;
    }
    proof {
        lemma_pieces_not_empty(s@);
        assert(s@.take(i as int) =~= s@);
        assert(pieces(s@).drop_last().push(pieces(s@).last()) =~= pieces(s@));
    }
    push_entry(&mut out, piece.as_str());
    out
}

/// What to look up for lists of identifiers and queries: the identifiers first.
pub open spec fn lookups_of(queries: Seq<char>, song_ids: Seq<char>) -> Seq<LookupModel> {
    entries(pieces(song_ids)).map_values(|id: Seq<char>| LookupModel::ById(id)) + entries(
        pieces(queries),
    ).map_values(|query: Seq<char>| LookupModel::ByQuery(query))
}

/// A list of what to look up as mathematical values.
pub open spec fn lookup_models(items: Seq<Lookup>) -> Seq<LookupModel> {
    items.map_values(|l: Lookup| l@)
}

/// What to look up for lists of identifiers and queries.
pub fn lookups(queries: &str, song_ids: &str) -> (r: Vec<Lookup>)
    ensures
        lookup_models(r@) == lookups_of(queries@, song_ids@),
{
    let ids: Vec<String> = split_many(song_ids);
    let queries_list: Vec<String> = split_many(queries);
    let mut out: Vec<Lookup> = Vec::new();
    let mut i: usize = 0;
    while i < ids.len()
        invariant
            i <= ids@.len(),
            out@.len() == i,
            forall|j: int| 0 <= j < i ==> (#[trigger] out@[j])@ == LookupModel::ById(ids@[j]@),
        decreases ids@.len() - i,
    {
        out.push(Lookup::ById(ids[i].clone()));
        i = i + 1;
    }
    let mut k: usize = 0;
    while k < queries_list.len()
        invariant
            k <= queries_list@.len(),
            out@.len() == ids@.len() + k,
            forall|j: int|
                0 <= j < ids@.len() ==> (#[trigger] out@[j])@ == LookupModel::ById(ids@[j]@),
            forall|j: int|
                ids@.len() <= j < ids@.len() + k ==> (#[trigger] out@[j])@ == LookupModel::ByQuery(
                    queries_list@[j - ids@.len()]@,
                ),
        decreases queries_list@.len() - k,
    {
        out.push(Lookup::ByQuery(queries_list[k].clone()));
        k = k + 1;
    }
    assert(lookup_models(out@) =~= lookups_of(queries@, song_ids@));
    out
}

// ----------------------------------------------------------------------- laws

/// Nothing is lost or doubled by going on: history, current song and queue hold
/// the same songs in the same order as before.
pub proof fn law_next_keeps_songs(p: Player)
    requires
        p.queue.len() > 0,
    ensures
        all_songs(advanced(p)) == all_songs(p),
{
    assert(seq![p.queue[0]] + p.queue.skip(1) =~= p.queue);
    assert(all_songs(advanced(p)) =~= all_songs(p));
}

/// Nothing is lost or doubled by going back.
pub proof fn law_previous_keeps_songs(p: Player)
    requires
        p.history.len() > 0,
    ensures
        all_songs(stepped_back(p)) == all_songs(p),
{
    assert(p.history.drop_last().push(p.history.last()) =~= p.history);
    assert(all_songs(stepped_back(p)) =~= all_songs(p));
}

/// The songs of a player in the order in which they play.
pub open spec fn all_songs(p: Player) -> Seq<Item> {
    p.history + (match p.current {
        Some(current) => seq![current],
        None => Seq::empty(),
    }) + p.queue
}

/// Going back undoes going on, and the other way round, while something plays:
/// only that the player was paused is forgotten.
pub proof fn law_next_and_previous_undo_each_other(p: Player)
    requires
        p.current is Some,
    ensures
        p.queue.len() > 0 ==> stepped_back(advanced(p)) == (Player { paused: false, ..p }),
        p.history.len() > 0 ==> advanced(stepped_back(p)) == (Player { paused: false, ..p }),
{
    if p.queue.len() > 0 {
        let q = stepped_back(advanced(p));
        assert(q.queue =~= p.queue);
        assert(q.history =~= p.history);
    }
    if p.history.len() > 0 {
        let q = advanced(stepped_back(p));
        assert(q.queue =~= p.queue);
        assert(q.history =~= p.history);
    }
}

/// An interruption leaves no trace once it is undone: music that was playing plays
/// as before.
pub proof fn law_interruption_is_undone(p: Player, mode: InterruptionAction)
    requires
        p.current is Some,
        !p.paused,
        p.interruption is None,
    ensures
        ({
            let q = uninterrupted(interrupted_player(p, mode));
            p == if mode == InterruptionAction::Pause {
                resumed_player(q)
            } else {
                q
            }
        }),
{
}

/// No entry of a list is empty.
pub proof fn law_entries_are_not_empty(items: Seq<Seq<char>>, i: int)
    requires
        0 <= i < entries(items).len(),
    ensures
        entries(items)[i].len() > 0,
    decreases items.len(),
{
    let before = entries(items.drop_last());
    if i < before.len() {
        law_entries_are_not_empty(items.drop_last(), i);
    }
}

/// No piece of a text holds a separator.
pub proof fn law_pieces_hold_no_separator(s: Seq<char>, i: int, j: int)
    requires
        0 <= i < pieces(s).len(),
        0 <= j < pieces(s)[i].len(),
    ensures
        !is_separator(pieces(s)[i][j]),
    decreases s.len(),
{
    if s.len() > 0 {
        let before = pieces(s.drop_last());
        lemma_pieces_not_empty(s.drop_last());
        if is_separator(s.last()) {
            law_pieces_hold_no_separator(s.drop_last(), i, j);
        } else if i < before.len() - 1 {
            law_pieces_hold_no_separator(s.drop_last(), i, j);
        } else if j < before.last().len() {
            law_pieces_hold_no_separator(s.drop_last(), i, j);
        }
    }
}

/// Going on takes the first of the queue and puts what played behind the history;
/// going back takes the last of the history and puts what played in front of the
/// queue. Either way the song plays, and an interruption is not touched.
pub proof fn law_steps_move_one_song(p: Player)
    ensures
        p.queue.len() > 0 ==> {
            let q = advanced(p);
            &&& q.current == Some(p.queue[0])
            &&& q.queue.len() == p.queue.len() - 1
            &&& forall|i: int| 0 <= i < q.queue.len() ==> #[trigger] q.queue[i] == p.queue[i + 1]
            &&& p.current matches Some(was) ==> q.history == p.history.push(was)
            &&& p.current is None ==> q.history == p.history
            &&& !q.paused && q.interruption == p.interruption
        },
        p.history.len() > 0 ==> {
            let q = stepped_back(p);
            &&& q.current == Some(p.history[p.history.len() - 1])
            &&& q.history == p.history.take(p.history.len() - 1)
            &&& p.current matches Some(was) ==> q.queue.len() == p.queue.len() + 1 && q.queue[0]
                == was && q.queue.skip(1) == p.queue
            &&& p.current is None ==> q.queue == p.queue
            &&& !q.paused && q.interruption == p.interruption
        },
{
    if p.history.len() > 0 {
        let q = stepped_back(p);
        assert(q.history =~= p.history.take(p.history.len() - 1));
        if p.current is Some {
            assert(q.queue.skip(1) =~= p.queue);
        }
    }
}

/// Only the mode to pause pauses, and only what plays is interrupted: the songs stay
/// where they are.
pub proof fn law_interruptions_touch_no_song(p: Player, mode: InterruptionAction)
    ensures
        ({
            let q = interrupted_player(p, mode);
            &&& q.current == p.current && q.queue == p.queue && q.history == p.history
            &&& p.current is None ==> q == p
            &&& p.current is Some ==> q.interruption == Some(mode)
            &&& p.current is Some && mode == InterruptionAction::Pause ==> q.paused
            &&& mode != InterruptionAction::Pause ==> q.paused == p.paused
        }),
{
}

/// Which settings do what: to lower the volume or to leave music alone has to be
/// asked for; anything else pauses.
pub proof fn law_interruption_modes(mode: Seq<char>)
    ensures
        ({
            let word = text::trimmed(mode);
            let duck = word == "duck"@ || word == "lower_volume"@ || word == "volume"@;
            let keep = word == "none"@ || word == "keep_playing"@;
            &&& duck ==> interruption_of(mode) == InterruptionAction::Duck
            &&& keep ==> interruption_of(mode) == InterruptionAction::Keep
            &&& !duck && !keep ==> interruption_of(mode) == InterruptionAction::Pause
        }),
{
    reveal_strlit("duck");
    reveal_strlit("lower_volume");
    reveal_strlit("volume");
    reveal_strlit("none");
    reveal_strlit("keep_playing");
    assert("duck"@[0] == 'd' && "none"@[0] == 'n');
    assert("duck"@.len() == 4 && "lower_volume"@.len() == 12 && "volume"@.len() == 6 && "none"@.len()
        == 4 && "keep_playing"@.len() == 12);
    assert("lower_volume"@[0] == 'l' && "keep_playing"@[0] == 'k');
}

/// A list that a user gives is cut at line feeds and semicolons, of either width, and
/// each entry that is left is taken without white space around it, in order: one more
/// entry behind a separator is one more to look up.
pub proof fn law_entries_of_a_list(s: Seq<char>, separator: char, entry: Seq<char>)
    requires
        separator == '\n' || separator == ';' || separator == '；',
        forall|i: int|
            0 <= i < entry.len() ==> (#[trigger] entry[i]) != '\n' && entry[i] != ';' && entry[i]
                != '；',
    ensures
        entries(pieces(s.push(separator) + entry)) == if text::trimmed(entry).len() == 0 {
            entries(pieces(s))
        } else {
            entries(pieces(s)).push(text::trimmed(entry))
        },
{
    lemma_pieces_behind(s.push(separator), entry);
    let all = pieces(s.push(separator) + entry);
    assert(s.push(separator).drop_last() =~= s);
    assert(pieces(s.push(separator)) == pieces(s).push(Seq::empty()));
    assert(pieces(s).push(Seq::empty()).drop_last() =~= pieces(s));
    assert(pieces(s).push(Seq::<char>::empty()).last() + entry =~= entry);
    assert(all =~= pieces(s).push(entry));
    assert(all.drop_last() =~= pieces(s));
}

proof fn lemma_pieces_behind(s: Seq<char>, entry: Seq<char>)
    requires
        forall|i: int|
            0 <= i < entry.len() ==> (#[trigger] entry[i]) != '\n' && entry[i] != ';' && entry[i]
                != '；',
    ensures
        pieces(s + entry) == pieces(s).drop_last().push(pieces(s).last() + entry),
        pieces(s).len() >= 1,
    decreases entry.len(),
{
    lemma_pieces_not_empty(s);
    if entry.len() == 0 {
        assert(s + entry =~= s);
        assert(pieces(s).last() + entry =~= pieces(s).last());
        assert(pieces(s).drop_last().push(pieces(s).last()) =~= pieces(s));
    } else {
        let front = entry.drop_last();
        assert forall|i: int| 0 <= i < front.len() implies (#[trigger] front[i]) != '\n'
            && front[i] != ';' && front[i] != '；' by {
            assert(front[i] == entry[i]);
        }
        lemma_pieces_behind(s, front);
        assert((s + entry).drop_last() =~= s + front);
        assert((s + entry).last() == entry[entry.len() - 1]);
        let before = pieces(s + front);
        assert(before.drop_last() =~= pieces(s).drop_last());
        assert(before.last().push(entry.last()) =~= pieces(s).last() + entry);
    }
}

/// What is looked up for lists: the identifiers first, then the queries, each in
/// order.
pub proof fn law_identifiers_are_looked_up_first(queries: Seq<char>, song_ids: Seq<char>, i: int)
    requires
        0 <= i < lookups_of(queries, song_ids).len(),
    ensures
        ({
            let ids = entries(pieces(song_ids));
            let asked = entries(pieces(queries));
            &&& lookups_of(queries, song_ids).len() == ids.len() + asked.len()
            &&& lookups_of(queries, song_ids)[i] == if i < ids.len() {
                LookupModel::ById(ids[i])
            } else {
                LookupModel::ByQuery(asked[i - ids.len()])
            }
        }),
{
}

/// What a player says of itself is what it is: whether it plays, is paused and is
/// interrupted, what plays, how many songs follow, and the first ten of them.
pub proof fn law_status_tells_the_player(p: Player)
    requires
        p.queue.len() <= u64::MAX,
    ensures
        ({
            let told = |name: Seq<char>| json::member(status_tree(p), name);
            let shown = if p.queue.len() <= 10 {
                p.queue.len() as int
            } else {
                10
            };
            &&& told("playing"@) == Some(JsonTree::Bool(p.current is Some))
            &&& told("paused"@) == Some(JsonTree::Bool(p.paused))
            &&& told("interrupted"@) == Some(JsonTree::Bool(p.interruption is Some))
            &&& p.current matches Some(item) ==> told("current"@) == Some(
                songs::song_tree(item.song),
            )
            &&& p.current is None ==> told("current"@) == Some(JsonTree::Null)
            &&& told("queue_size"@) == Some(
                JsonTree::Number(NumberTree::Unsigned(p.queue.len() as u64)),
            )
            &&& told("queue"@) matches Some(JsonTree::List(listed)) && listed.len() == shown
                && forall|i: int|
                0 <= i < shown ==> #[trigger] listed[i] == songs::song_tree(p.queue[i].song)
        }),
{
    reveal_with_fuel(json::member_from, 7);
    reveal_strlit("playing");
    reveal_strlit("paused");
    reveal_strlit("interrupted");
    reveal_strlit("current");
    reveal_strlit("queue_size");
    reveal_strlit("queue");
    assert("playing"@[0] == 'p' && "current"@[0] == 'c');
    assert("playing"@.len() == 7 && "paused"@.len() == 6 && "interrupted"@.len() == 11
        && "current"@.len() == 7 && "queue_size"@.len() == 10 && "queue"@.len() == 5);
}

/// An answer that a song plays tells the song, and the size of the queue where that is
/// asked; one that songs were added tells all of them, in order.
pub proof fn law_answers_tell_the_songs(song: SongModel, queued: u64, items: Seq<Item>, i: int)
    ensures
        json::member(playing_tree(song), "playing"@) == Some(JsonTree::Bool(true)),
        json::member(playing_tree(song), "song"@) == Some(songs::song_tree(song)),
        json::member(playing_queue_tree(song, queued), "playing"@) == Some(JsonTree::Bool(true)),
        json::member(playing_queue_tree(song, queued), "song"@) == Some(songs::song_tree(song)),
        json::member(playing_queue_tree(song, queued), "queue_size"@) == Some(
            JsonTree::Number(NumberTree::Unsigned(queued)),
        ),
        0 <= i < items.len() ==> ({
            let told = json::list_of(json::member(added_tree(items), "added"@));
            &&& told is Some
            &&& told->0.len() == items.len()
            &&& told->0[i] == songs::song_tree(items[i].song)
        }),
{
    reveal_strlit("playing");
    reveal_strlit("song");
    reveal_strlit("queue_size");
    assert("playing"@.len() == 7 && "song"@.len() == 4 && "queue_size"@.len() == 10);
    reveal_with_fuel(json::member_from, 4);
}

} // verus!
