//! Playing and queueing music: the requests of the user as they go from looking
//! songs up to playing them.
use vstd::prelude::*;
use crate::config::MusicConfig;
use crate::json;
use crate::json::{Json, JsonTree};
use crate::music;
use crate::music::{Query, QueryModel};
use crate::playlist;
use crate::playlist::{Item, Lookup, LookupModel, MusicState, Player, QueueItem};
use crate::songs;
use crate::songs::{Provider, Song, SongModel};
use crate::text;

verus! {

/// What the user asked for.
#[derive(Debug, Clone, Copy, PartialEq, Eq, Structural)]
pub enum JobKind {
    /// Play one song in place of all others.
    PlayQuery,
    /// Put songs into the queue.
    AddToQueue,
    /// Put random songs into the queue.
    AddRandom,
    /// Play random songs in place of all others.
    PlayRandom,
}

/// What a request waits for.
#[derive(Debug)]
pub enum JobPhase {
    /// The list of random songs of a service.
    Listing(Provider),
    /// The song that is looked up first, from a service.
    Resolving(Provider),
    /// Where a song can be played from.
    Locating(Song),
    /// The song to start.
    Starting(QueueItem),
    /// Nothing: the request is answered.
    Over,
}

/// What a request waits for, as a mathematical value.
pub enum PhaseModel {
    Listing(Provider),
    Resolving(Provider),
    Locating(SongModel),
    Starting(Item),
    Over,
}

impl View for JobPhase {
    type V = PhaseModel;

    open spec fn view(&self) -> PhaseModel {
        match self {
            JobPhase::Listing(provider) => PhaseModel::Listing(*provider),
            JobPhase::Resolving(provider) => PhaseModel::Resolving(*provider),
            JobPhase::Locating(song) => PhaseModel::Locating(song@),
            JobPhase::Starting(item) => PhaseModel::Starting(item@),
            JobPhase::Over => PhaseModel::Over,
        }
    }
}

/// A request: what is still to be looked up, what songs are still to be located,
/// and what was found.
#[derive(Debug)]
pub struct MusicJob {
    pub kind: JobKind,
    pub lookups: Vec<Lookup>,
    pub songs: Vec<Song>,
    pub found: Vec<QueueItem>,
    pub phase: JobPhase,
}

/// A request, as a mathematical value.
pub struct Job {
    pub kind: JobKind,
    pub lookups: Seq<LookupModel>,
    pub songs: Seq<SongModel>,
    pub found: Seq<Item>,
    pub phase: PhaseModel,
}

impl View for MusicJob {
    type V = Job;

    open spec fn view(&self) -> Job {
        Job {
            kind: self.kind,
            lookups: playlist::lookup_models(self.lookups@),
            songs: songs::song_models(self.songs@),
            found: playlist::items_of(self.found@),
            phase: self.phase@,
        }
    }
}

/// Something to do for a request. All but an answer is answered by an event.
#[derive(Debug)]
pub enum MusicTask {
    /// Ask a service.
    Ask { provider: Provider, query: Query },
    /// Make the URL under which Navidrome plays a song.
    StreamUrl(String),
    /// Let the speaker play what is at a URL.
    Play(String),
    /// The request is answered.
    Answer(Json),
}

/// Something to do for a request, as a mathematical value.
pub enum TaskModel {
    Ask { provider: Provider, query: QueryModel },
    StreamUrl(Seq<char>),
    Play(Seq<char>),
    Answer(JsonTree),
}

impl View for MusicTask {
    type V = TaskModel;

    open spec fn view(&self) -> TaskModel {
        match self {
            MusicTask::Ask { provider, query } => TaskModel::Ask {
                provider: *provider,
                query: query@,
            },
            MusicTask::StreamUrl(id) => TaskModel::StreamUrl(id@),
            MusicTask::Play(url) => TaskModel::Play(url@),
            MusicTask::Answer(answer) => TaskModel::Answer(json::tree(*answer)),
        }
    }
}

/// What can happen to a request.
#[derive(Debug)]
pub enum MusicEvent {
    /// A service has answered, or could not be asked.
    Answered(Result<Json, String>),
    /// The URL was made, or could not be.
    Url(Result<String, String>),
    /// The speaker plays, or does not.
    Played(Result<(), String>),
}

/// What can happen to a request, as a mathematical value.
pub enum MusicHappening {
    Answered(Result<JsonTree, Seq<char>>),
    Url(Result<Seq<char>, Seq<char>>),
    Played(Result<(), Seq<char>>),
}

impl View for MusicEvent {
    type V = MusicHappening;

    open spec fn view(&self) -> MusicHappening {
        match self {
            MusicEvent::Answered(Ok(data)) => MusicHappening::Answered(Ok(json::tree(*data))),
            MusicEvent::Answered(Err(e)) => MusicHappening::Answered(Err(e@)),
            MusicEvent::Url(Ok(url)) => MusicHappening::Url(Ok(url@)),
            MusicEvent::Url(Err(e)) => MusicHappening::Url(Err(e@)),
            MusicEvent::Played(Ok(())) => MusicHappening::Played(Ok(())),
            MusicEvent::Played(Err(e)) => MusicHappening::Played(Err(e@)),
        }
    }
}

/// A request, the player, and what is to be done next.
pub struct Next {
    pub job: Job,
    pub player: Player,
    pub task: TaskModel,
}

/// The end of a request.
pub open spec fn answering(job: Job, player: Player, answer: JsonTree) -> Next {
    Next {
        job: Job { phase: PhaseModel::Over, ..job },
        player,
        task: TaskModel::Answer(answer),
    }
}

/// How it is found out where a song can be played from.
pub open spec fn locate_task(config: MusicConfig, id: Seq<char>) -> TaskModel {
    match music::song_provider_of(config) {
        Provider::Navidrome => TaskModel::StreamUrl(id),
        Provider::Netease => TaskModel::Ask {
            provider: Provider::Netease,
            query: QueryModel {
                path: "/song/url/v1"@,
                params: seq![("id"@, id), ("level"@, config.netease.default_level@)],
            },
        },
    }
}

/// Finding out where a song can be played from.
pub open spec fn locating(config: MusicConfig, job: Job, player: Player, song: SongModel) -> Next {
    Next {
        job: Job { phase: PhaseModel::Locating(song), ..job },
        player,
        task: locate_task(config, song.id),
    }
}

/// Starting a song.
pub open spec fn starting(job: Job, player: Player, item: Item) -> Next {
    Next {
        job: Job { phase: PhaseModel::Starting(item), ..job },
        player,
        task: TaskModel::Play(item.url),
    }
}

/// Queueing what was found: where nothing plays, the first of the queue starts.
pub open spec fn queueing(job: Job, player: Player) -> Next {
    let queued = Player { queue: player.queue + job.found, ..player };
    if player.current is Some || queued.queue.len() == 0 {
        answering(job, queued, playlist::added_tree(job.found))
    } else {
        starting(job, playlist::advanced(queued), queued.queue[0])
    }
}

/// Everything was looked up.
pub open spec fn concluding(job: Job, player: Player) -> Next {
    if job.found.len() == 0 {
        answering(
            job,
            player,
            music::error_tree(
                if job.kind == JobKind::AddRandom || job.kind == JobKind::PlayRandom {
                    "no playable random songs resolved"@
                } else {
                    "no playable songs resolved"@
                },
            ),
        )
    } else if job.kind == JobKind::PlayRandom {
        let replaced = Player {
            current: None,
            queue: job.found,
            history: Seq::empty(),
            paused: false,
            ..player
        };
        starting(job, playlist::advanced(replaced), job.found[0])
    } else {
        queueing(job, player)
    }
}

/// A request without what is looked up or located first.
pub open spec fn dropped(job: Job) -> Job {
    if job.lookups.len() > 0 {
        Job { lookups: job.lookups.skip(1), ..job }
    } else if job.songs.len() > 0 {
        Job { songs: job.songs.skip(1), ..job }
    } else {
        job
    }
}

/// Going on with what is to be looked up next, then with the songs to be located.
pub open spec fn proceeding(config: MusicConfig, job: Job, player: Player) -> Next
    decreases job.lookups.len() + job.songs.len(),
{
    if job.lookups.len() > 0 {
        match job.lookups[0] {
            LookupModel::ById(id) => if music::song_provider_of(config) == Provider::Navidrome {
                Next {
                    job: Job { phase: PhaseModel::Resolving(Provider::Navidrome), ..job },
                    player,
                    task: TaskModel::Ask {
                        provider: Provider::Navidrome,
                        query: QueryModel {
                            path: "/rest/getSong.view"@,
                            params: seq![("id"@, id)],
                        },
                    },
                }
            } else {
                locating(config, job, player, songs::bare_song(id))
            },
            LookupModel::ByQuery(query) => match music::search_provider_of(config) {
                Ok(provider) => Next {
                    job: Job { phase: PhaseModel::Resolving(provider), ..job },
                    player,
                    task: TaskModel::Ask {
                        provider,
                        query: music::search_query_of(provider, query, 1),
                    },
                },
                Err(e) => if job.kind == JobKind::PlayQuery {
                    answering(job, player, music::error_tree(e))
                } else {
                    proceeding(config, dropped(job), player)
                },
            },
        }
    } else if job.songs.len() > 0 {
        locating(config, job, player, job.songs[0])
    } else {
        concluding(job, player)
    }
}

/// What is looked up first could not be found: one song that is asked for is an
/// error, one of many is passed over.
pub open spec fn skipping(config: MusicConfig, job: Job, player: Player, e: Seq<char>) -> Next {
    if job.kind == JobKind::PlayQuery {
        answering(job, player, music::error_tree(e))
    } else {
        proceeding(config, dropped(job), player)
    }
}

/// A song was found with where it plays from.
pub open spec fn gaining(
    config: MusicConfig,
    job: Job,
    player: Player,
    song: SongModel,
    url: Seq<char>,
) -> Next {
    let item = Item { song, url };
    let held = dropped(Job { found: job.found.push(item), ..job });
    if job.kind == JobKind::PlayQuery {
        starting(held, player, item)
    } else {
        proceeding(config, held, player)
    }
}

/// The song that an answer to the first lookup gives.
pub open spec fn looked_up(lookup: LookupModel, provider: Provider, data: JsonTree) -> Result<
    SongModel,
    Seq<char>,
> {
    match lookup {
        LookupModel::ById(_) => match json::member(data, "song"@) {
            Some(item) => Ok(songs::navidrome_song(item)),
            None => Err("song detail not found"@),
        },
        LookupModel::ByQuery(_) => {
            let found = songs::found_songs(provider, data);
            if found.len() == 0 {
                Err("no songs found"@)
            } else {
                Ok(found[0])
            }
        },
    }
}

/// A service has answered, or could not be asked.
pub open spec fn answered(
    config: MusicConfig,
    job: Job,
    player: Player,
    answer: Result<JsonTree, Seq<char>>,
) -> Next {
    match job.phase {
        PhaseModel::Listing(provider) => match answer {
            Err(e) => answering(job, player, music::error_tree(e)),
            Ok(data) => proceeding(
                config,
                Job { songs: songs::drawn_songs(provider, data), ..job },
                player,
            ),
        },
        PhaseModel::Resolving(provider) => match answer {
            Err(e) => skipping(config, job, player, e),
            Ok(data) => match looked_up(job.lookups[0], provider, data) {
                Err(e) => skipping(config, job, player, e),
                Ok(song) => locating(config, job, player, song),
            },
        },
        PhaseModel::Locating(song) => match answer {
            Err(e) => skipping(config, job, player, e),
            Ok(data) => match songs::netease_play_url(data) {
                None => skipping(config, job, player, "song has no playable url"@),
                Some(url) => gaining(config, job, player, song, url),
            },
        },
        _ => answering(job, player, JsonTree::Null),
    }
}

/// The speaker plays the song that was to be started, or does not.
pub open spec fn played(job: Job, player: Player, item: Item, outcome: Result<(), Seq<char>>) -> Next {
    match outcome {
        Err(e) => answering(
            job,
            player,
            if job.kind == JobKind::PlayQuery {
                JsonTree::Object(
                    seq![("error"@, JsonTree::Text(e)), ("song"@, songs::song_tree(item.song))],
                )
            } else {
                music::error_tree(e)
            },
        ),
        Ok(()) => match job.kind {
            JobKind::PlayQuery => answering(
                job,
                Player {
                    current: Some(item),
                    queue: Seq::empty(),
                    history: Seq::empty(),
                    paused: false,
                    ..player
                },
                playlist::playing_queue_tree(item.song, 0),
            ),
            JobKind::PlayRandom => answering(
                job,
                player,
                playlist::playing_queue_tree(item.song, player.queue.len() as u64),
            ),
            _ => answering(job, player, playlist::added_tree(job.found)),
        },
    }
}

/// Whether a request waits for this kind of event.
pub open spec fn expects(job: Job, event: MusicHappening) -> bool {
    match job.phase {
        PhaseModel::Listing(_) => event is Answered,
        PhaseModel::Resolving(_) => event is Answered && job.lookups.len() > 0,
        PhaseModel::Locating(_) => event is Answered || event is Url,
        PhaseModel::Starting(_) => event is Played,
        PhaseModel::Over => false,
    }
}

/// What a request that waits for an event does with it.
pub open spec fn job_step(config: MusicConfig, job: Job, player: Player, event: MusicHappening) -> Next {
    match event {
        MusicHappening::Answered(answer) => answered(config, job, player, answer),
        MusicHappening::Url(Err(e)) => skipping(config, job, player, e),
        MusicHappening::Url(Ok(url)) => gaining(
            config,
            job,
            player,
            job.phase->Locating_0,
            url,
        ),
        MusicHappening::Played(outcome) => played(job, player, job.phase->Starting_0, outcome),
    }
}

impl MusicJob {
    fn answer(&mut self, answer: Json) -> (task: MusicTask)
        ensures
            final(self)@ == (Job { phase: PhaseModel::Over, ..old(self)@ }),
            task@ == TaskModel::Answer(json::tree(answer)),
    {
        self.phase = JobPhase::Over;
        MusicTask::Answer(answer)
    }

    fn locate(&mut self, config: &MusicConfig, song: Song) -> (task: MusicTask)
        ensures
            final(self)@ == (Job { phase: PhaseModel::Locating(song@), ..old(self)@ }),
            task@ == locate_task(*config, song@.id),
    {
        let task: MusicTask = match music::song_provider(config) {
            Provider::Navidrome => MusicTask::StreamUrl(song.id.clone()),
            Provider::Netease => MusicTask::Ask {
                provider: Provider::Netease,
                query: music::url_query(song.id.as_str(), config.netease.default_level.as_str()),
            },
        };
        self.phase = JobPhase::Locating(song);
        task
    }

    fn start(&mut self, item: QueueItem) -> (task: MusicTask)
        ensures
            final(self)@ == (Job { phase: PhaseModel::Starting(item@), ..old(self)@ }),
            task@ == TaskModel::Play(item@.url),
    {
        let url: String = item.url.clone();
        self.phase = JobPhase::Starting(item);
        MusicTask::Play(url)
    }

    fn drop_first(&mut self)
        ensures
            final(self)@ == dropped(old(self)@),
    {
        let ghost before = self@;
        if self.lookups.len() > 0 {
            let _gone: Lookup = self.lookups.remove(0);
            assert(self@.lookups =~= before.lookups.skip(1));
        } else if self.songs.len() > 0 {
            let _gone: Song = self.songs.remove(0);
            assert(self@.songs =~= before.songs.skip(1));
        }
    }

    fn conclude(&mut self, player: &mut MusicState) -> (task: MusicTask)
        ensures
            (Next { job: final(self)@, player: final(player)@, task: task@ }) == concluding(
                old(self)@,
                old(player)@,
            ),
    {
        if self.found.len() == 0 {
            let answer: Json = if self.kind == JobKind::AddRandom || self.kind
                == JobKind::PlayRandom {
                music::error_json("no playable random songs resolved")
            } else {
                music::error_json("no playable songs resolved")
            };
            return self.answer(answer);
        }
        if self.kind == JobKind::PlayRandom {
            player.replace_queue(playlist::copy_queue(&self.found));
            return match player.play_next() {
                Ok(item) => self.start(item),
                Err(e) => self.answer(music::error_json(e.as_str())),
            };
        }
        let start_now: bool = player.enqueue(&self.found);
        if !start_now {
            let answer: Json = playlist::added_json(&self.found);
            return self.answer(answer);
        }
        match player.play_next() {
            Ok(item) => self.start(item),
            Err(e) => self.answer(music::error_json(e.as_str())),
        }
    }

    /// Goes on with what is to be looked up next.
    pub fn proceed(&mut self, config: &MusicConfig, player: &mut MusicState) -> (task: MusicTask)
        ensures
            (Next { job: final(self)@, player: final(player)@, task: task@ }) == proceeding(
                *config,
                old(self)@,
                old(player)@,
            ),
        decreases old(self)@.lookups.len() + old(self)@.songs.len(),
    {
        if self.lookups.len() > 0 {
            assert(self@.lookups[0] == self.lookups@[0]@);
            match &self.lookups[0] {
                Lookup::ById(id) => {
                    if music::song_provider(config) == Provider::Navidrome {
                        let query: Query = music::detail_query(id.as_str());
                        self.phase = JobPhase::Resolving(Provider::Navidrome);
                        MusicTask::Ask { provider: Provider::Navidrome, query }
                    } else {
                        let song: Song = songs::song_by_id(id.as_str());
                        self.locate(config, song)
                    }
                },
                Lookup::ByQuery(query) => match music::search_provider(config) {
                    Ok(provider) => {
                        let query: Query = music::search_query(provider, query.as_str(), 1);
                        self.phase = JobPhase::Resolving(provider);
                        MusicTask::Ask { provider, query }
                    },
                    Err(e) => {
                        if self.kind == JobKind::PlayQuery {
                            self.answer(music::error_json(e.as_str()))
                        } else {
                            self.drop_first();
                            self.proceed(config, player)
                        }
                    },
                },
            }
        } else if self.songs.len() > 0 {
            assert(self@.songs[0] == self.songs@[0]@);
            let song: Song = self.songs[0].copy();
            self.locate(config, song)
        } else {
            self.conclude(player)
        }
    }

    fn skip(&mut self, config: &MusicConfig, player: &mut MusicState, e: &str) -> (task: MusicTask)
        ensures
            (Next { job: final(self)@, player: final(player)@, task: task@ }) == skipping(
                *config,
                old(self)@,
                old(player)@,
                e@,
            ),
    {
        if self.kind == JobKind::PlayQuery {
            self.answer(music::error_json(e))
        } else {
            self.drop_first();
            self.proceed(config, player)
        }
    }

    fn gain(
        &mut self,
        config: &MusicConfig,
        player: &mut MusicState,
        song: Song,
        url: String,
    ) -> (task: MusicTask)
        ensures
            (Next { job: final(self)@, player: final(player)@, task: task@ }) == gaining(
                *config,
                old(self)@,
                old(player)@,
                song@,
                url@,
            ),
    {
        let ghost begun = self@;
        let item = QueueItem { song, url };
        let kept: QueueItem = item.copy();
        self.found.push(kept);
        assert(self@.found =~= begun.found.push(item@));
        self.drop_first();
        if self.kind == JobKind::PlayQuery {
            self.start(item)
        } else {
            self.proceed(config, player)
        }
    }

    fn take_song(&mut self) -> (r: Option<Song>)
        ensures
            match old(self)@.phase {
                PhaseModel::Locating(song) => r matches Some(s) && s@ == song,
                _ => r is None,
            },
            final(self)@ == old(self)@,
    {
        match &self.phase {
            JobPhase::Locating(song) => Some(song.copy()),
            _ => None,
        }
    }

    fn read_answer(&mut self, config: &MusicConfig, player: &mut MusicState, answer: Result<
        Json,
        String,
    >) -> (task: MusicTask)
        requires
            expects(old(self)@, MusicEvent::Answered(answer)@),
        ensures
            (Next { job: final(self)@, player: final(player)@, task: task@ }) == answered(
                *config,
                old(self)@,
                old(player)@,
                match answer {
                    Ok(data) => Ok(json::tree(data)),
                    Err(e) => Err(e@),
                },
            ),
    {
        let data: Json = match answer {
            Ok(data) => data,
            Err(e) => {
                return match &self.phase {
                    JobPhase::Listing(_) => self.answer(music::error_json(e.as_str())),
                    _ => self.skip(config, player, e.as_str()),
                };
            },
        };
        if let Some(song) = self.take_song() {
            return match songs::netease_song_url(&data) {
                Ok(url) => self.gain(config, player, song, url),
                Err(e) => self.skip(config, player, e.as_str()),
            };
        }
        match &self.phase {
            JobPhase::Listing(provider) => {
                let provider: Provider = *provider;
                self.songs = songs::random_songs(provider, &data);
                self.proceed(config, player)
            },
            JobPhase::Resolving(provider) => {
                let provider: Provider = *provider;
                assert(self@.lookups[0] == self.lookups@[0]@);
                let song: Result<Song, String> = match &self.lookups[0] {
                    Lookup::ById(_) => songs::song_detail(&data),
                    Lookup::ByQuery(_) => {
                        let found: Vec<Song> = songs::search_songs(provider, &data);
                        let ghost all = songs::song_models(found@);
                        proof {
                            if found@.len() > 0 {
                                assert(all[0] == found@[0]@);
                            }
                        }
                        playlist::first_song(&found)
                    },
                };
                match song {
                    Ok(song) => self.locate(config, song),
                    Err(e) => self.skip(config, player, e.as_str()),
                }
            },
            _ => self.answer(Json::Null),
        }
    }

    fn note_played(&mut self, player: &mut MusicState, outcome: Result<(), String>) -> (task:
        MusicTask)
        requires
            old(self)@.phase is Starting,
        ensures
            (Next { job: final(self)@, player: final(player)@, task: task@ }) == played(
                old(self)@,
                old(player)@,
                old(self)@.phase->Starting_0,
                match outcome {
                    Ok(()) => Ok(()),
                    Err(e) => Err(e@),
                },
            ),
    {
        let item: QueueItem = match &self.phase {
            JobPhase::Starting(item) => item.copy(),
            _ => {
                return self.answer(Json::Null);
            },
        };
        match outcome {
            Err(e) => {
                let answer: Json = if self.kind == JobKind::PlayQuery {
                    playlist::unplayable_json(e.as_str(), &item.song)
                } else {
                    music::error_json(e.as_str())
                };
                self.answer(answer)
            },
            Ok(()) => {
                let answer: Json = match self.kind {
                    JobKind::PlayQuery => {
                        let answer: Json = playlist::playing_queue_json(&item.song, 0);
                        player.play_only(item);
                        answer
                    },
                    JobKind::PlayRandom => playlist::playing_queue_json(
                        &item.song,
                        player.queue.len(),
                    ),
                    _ => playlist::added_json(&self.found),
                };
                self.answer(answer)
            },
        }
    }

    /// Something happens to the request; what it does not wait for is answered
    /// with nothing to do.
    pub fn happen(&mut self, config: &MusicConfig, player: &mut MusicState, event: MusicEvent) -> (r:
        Option<MusicTask>)
        ensures
            if expects(old(self)@, event@) {
                r matches Some(task) && (Next {
                    job: final(self)@,
                    player: final(player)@,
                    task: task@,
                }) == job_step(*config, old(self)@, old(player)@, event@)
            } else {
                r is None && final(self)@ == old(self)@ && final(player)@ == old(player)@
            },
    {
        match event {
            MusicEvent::Answered(answer) => {
                let waits: bool = match &self.phase {
                    JobPhase::Listing(_) => true,
                    JobPhase::Resolving(_) => self.lookups.len() > 0,
                    JobPhase::Locating(_) => true,
                    _ => false,
                };
                if waits {
                    Some(self.read_answer(config, player, answer))
                } else {
                    None
                }
            },
            MusicEvent::Url(url) => match self.take_song() {
                Some(song) => match url {
                    Ok(url) => Some(self.gain(config, player, song, url)),
                    Err(e) => Some(self.skip(config, player, e.as_str())),
                },
                None => None,
            },
            MusicEvent::Played(outcome) => {
                let waits: bool = match &self.phase {
                    JobPhase::Starting(_) => true,
                    _ => false,
                };
                if waits {
                    Some(self.note_played(player, outcome))
                } else {
                    None
                }
            },
        }
    }
}

// ------------------------------------------------------------------- requests

/// A request for one song.
pub open spec fn query_job(query: Seq<char>, song_id: Seq<char>) -> Job {
    Job {
        kind: JobKind::PlayQuery,
        lookups: seq![playlist::lookup_of(query, song_id)],
        songs: Seq::empty(),
        found: Seq::empty(),
        phase: PhaseModel::Over,
    }
}

/// A request for songs in the queue.
pub open spec fn queue_job(queries: Seq<char>, song_ids: Seq<char>) -> Job {
    Job {
        kind: JobKind::AddToQueue,
        lookups: playlist::lookups_of(queries, song_ids),
        songs: Seq::empty(),
        found: Seq::empty(),
        phase: PhaseModel::Over,
    }
}

/// A request for random songs.
pub open spec fn random_job(kind: JobKind) -> Job {
    Job {
        kind,
        lookups: Seq::empty(),
        songs: Seq::empty(),
        found: Seq::empty(),
        phase: PhaseModel::Over,
    }
}

/// The number of random songs that are asked for.
pub open spec fn drawn_count(asked: usize) -> nat {
    if asked < 1 {
        1
    } else if asked > 100 {
        100
    } else {
        asked as nat
    }
}

/// The start of a request for random songs.
pub open spec fn random_start(config: MusicConfig, kind: JobKind, asked: usize, player: Player) -> Next {
    let job = random_job(kind);
    if !config.enabled {
        answering(job, player, music::error_tree("music.enabled is false"@))
    } else {
        let provider = music::song_provider_of(config);
        Next {
            job: Job { phase: PhaseModel::Listing(provider), ..job },
            player,
            task: TaskModel::Ask {
                provider,
                query: music::random_query_of(provider, drawn_count(asked)),
            },
        }
    }
}

/// Starts a request for one song, by its identifier or else by a search.
pub fn play_query(
    config: &MusicConfig,
    player: &mut MusicState,
    query: &str,
    song_id: &str,
) -> (r: (MusicJob, MusicTask))
    ensures
        (Next { job: r.0@, player: final(player)@, task: r.1@ }) == proceeding(
            *config,
            query_job(query@, song_id@),
            old(player)@,
        ),
{
    let mut lookups: Vec<Lookup> = Vec::new();
    lookups.push(playlist::resolve_one(query, song_id));
    let mut job = MusicJob {
        kind: JobKind::PlayQuery,
        lookups,
        songs: Vec::new(),
        found: Vec::new(),
        phase: JobPhase::Over,
    };
    proof {
        assert(job@.lookups =~= query_job(query@, song_id@).lookups);
        assert(job@.songs =~= Seq::empty());
        assert(job@.found =~= Seq::empty());
    }
    let task: MusicTask = job.proceed(config, player);
    (job, task)
}

/// Starts a request for songs in the queue: identifiers first, then searches.
pub fn add_to_queue(
    config: &MusicConfig,
    player: &mut MusicState,
    queries: &str,
    song_ids: &str,
) -> (r: (MusicJob, MusicTask))
    ensures
        (Next { job: r.0@, player: final(player)@, task: r.1@ }) == proceeding(
            *config,
            queue_job(queries@, song_ids@),
            old(player)@,
        ),
{
    let mut job = MusicJob {
        kind: JobKind::AddToQueue,
        lookups: playlist::lookups(queries, song_ids),
        songs: Vec::new(),
        found: Vec::new(),
        phase: JobPhase::Over,
    };
    proof {
        assert(job@.songs =~= Seq::empty());
        assert(job@.found =~= Seq::empty());
    }
    let task: MusicTask = job.proceed(config, player);
    (job, task)
}

fn start_random(config: &MusicConfig, kind: JobKind, count: usize) -> (r: (MusicJob, MusicTask))
    ensures
        forall|player: Player|
            (Next { job: r.0@, player, task: r.1@ }) == #[trigger] random_start(
                *config,
                kind,
                count,
                player,
            ),
{
    let mut job = MusicJob {
        kind,
        lookups: Vec::new(),
        songs: Vec::new(),
        found: Vec::new(),
        phase: JobPhase::Over,
    };
    proof {
        assert(job@.lookups =~= Seq::empty());
        assert(job@.songs =~= Seq::empty());
        assert(job@.found =~= Seq::empty());
    }
    match music::random_provider(config) {
        Err(e) => {
            let task: MusicTask = job.answer(music::error_json(e.as_str()));
            (job, task)
        },
        Ok(provider) => {
            let query: Query = music::random_query(provider, music::random_limit(count));
            job.phase = JobPhase::Listing(provider);
            (job, MusicTask::Ask { provider, query })
        },
    }
}

/// Starts a request for random songs in the queue.
pub fn add_random(config: &MusicConfig, count: usize) -> (r: (MusicJob, MusicTask))
    ensures
        forall|player: Player|
            (Next { job: r.0@, player, task: r.1@ }) == #[trigger] random_start(
                *config,
                JobKind::AddRandom,
                count,
                player,
            ),
{
    start_random(config, JobKind::AddRandom, count)
}

/// Starts a request for random songs in place of all others.
pub fn play_random(config: &MusicConfig, count: usize) -> (r: (MusicJob, MusicTask))
    ensures
        forall|player: Player|
            (Next { job: r.0@, player, task: r.1@ }) == #[trigger] random_start(
                *config,
                JobKind::PlayRandom,
                count,
                player,
            ),
{
    start_random(config, JobKind::PlayRandom, count)
}

// -------------------------------------------------------------------- control

/// What the speaker is told about music.
#[derive(Debug, Clone, Copy, PartialEq, Eq, Structural)]
pub enum DeviceCommand {
    Pause,
    Resume,
    Stop,
    Duck,
    Unduck,
}

/// Why a song that plays is wanted for a command, where none does.
pub open spec fn no_song(p: Player, name: Seq<char>) -> Option<JsonTree> {
    if p.current is Some {
        None
    } else {
        Some(music::refused_tree(name, "no current song"@))
    }
}

fn refuse_without_song(player: &MusicState, name: &str) -> (r: Option<Json>)
    ensures
        match no_song(player@, name@) {
            Some(answer) => r matches Some(x) && json::tree(x) == answer,
            None => r is None,
        },
{
    if player.has_current() {
        None
    } else {
        let refusal: Result<(), String> = Err("no current song".to_owned());
        Some(music::outcome_json(name, &refusal))
    }
}

/// A request to pause: the answer where nothing plays, else the speaker is told.
pub fn pause(player: &MusicState) -> (r: Result<DeviceCommand, Json>)
    ensures
        match no_song(player@, "paused"@) {
            Some(answer) => r matches Err(x) && json::tree(x) == answer,
            None => r == Ok::<DeviceCommand, Json>(DeviceCommand::Pause),
        },
{
    match refuse_without_song(player, "paused") {
        Some(answer) => Err(answer),
        None => Ok(DeviceCommand::Pause),
    }
}

/// The answer to a request to pause, when the speaker was told.
pub fn paused(player: &mut MusicState, outcome: &Result<(), String>) -> (r: Json)
    ensures
        json::tree(r) == music::outcome_tree("paused"@, *outcome),
        final(player)@ == (Player {
            paused: old(player)@.paused || *outcome is Ok,
            ..old(player)@
        }),
{
    if outcome.is_ok() {
        player.set_paused(true);
    }
    music::outcome_json("paused", outcome)
}

/// A request to go on: the answer where nothing plays, else the speaker is told.
pub fn resume(player: &MusicState) -> (r: Result<DeviceCommand, Json>)
    ensures
        match no_song(player@, "playing"@) {
            Some(answer) => r matches Err(x) && json::tree(x) == answer,
            None => r == Ok::<DeviceCommand, Json>(DeviceCommand::Resume),
        },
{
    match refuse_without_song(player, "playing") {
        Some(answer) => Err(answer),
        None => Ok(DeviceCommand::Resume),
    }
}

/// The answer to a request to go on, when the speaker was told.
pub fn resumed(player: &mut MusicState, outcome: &Result<(), String>) -> (r: Json)
    ensures
        json::tree(r) == music::outcome_tree("playing"@, *outcome),
        final(player)@ == (Player {
            paused: old(player)@.paused && *outcome is Err,
            ..old(player)@
        }),
{
    if outcome.is_ok() {
        player.set_paused(false);
    }
    music::outcome_json("playing", outcome)
}

/// The answer to a request to stop, when the speaker was told: everything is
/// forgotten, whether it stopped or not.
pub fn stopped(player: &mut MusicState, outcome: &Result<(), String>) -> (r: Json)
    ensures
        json::tree(r) == music::outcome_tree("stopped"@, *outcome),
        final(player)@ == playlist::silent_player(),
{
    player.clear();
    music::outcome_json("stopped", outcome)
}

/// A request for the next song or the one before: the song to start, or the
/// answer where there is none.
pub fn step(player: &mut MusicState, forward: bool) -> (r: Result<QueueItem, Json>)
    ensures
        ({
            let p = old(player)@;
            let empty = if forward {
                p.queue.len() == 0
            } else {
                p.history.len() == 0
            };
            if empty {
                &&& r matches Err(x) && json::tree(x) == music::error_tree(
                    if forward {
                        "queue is empty"@
                    } else {
                        "history is empty"@
                    },
                )
                &&& final(player)@ == p
            } else {
                &&& final(player)@ == if forward {
                    playlist::advanced(p)
                } else {
                    playlist::stepped_back(p)
                }
                &&& r matches Ok(item) && Some(item@) == final(player)@.current
            }
        }),
{
    let next: Result<QueueItem, String> = if forward {
        player.play_next()
    } else {
        player.play_previous()
    };
    match next {
        Ok(item) => Ok(item),
        Err(e) => Err(music::error_json(e.as_str())),
    }
}

/// The answer to a request for another song, when the speaker was told.
pub fn stepped(song: &Song, outcome: &Result<(), String>) -> (r: Json)
    ensures
        json::tree(r) == match *outcome {
            Ok(()) => playlist::playing_tree(song@),
            Err(e) => music::error_tree(e@),
        },
{
    match outcome {
        Ok(()) => playlist::playing_json(song),
        Err(e) => music::error_json(e.as_str()),
    }
}

/// What the wake word does to music: what becomes of it, and what the speaker is
/// told first.
pub open spec fn woken(player: Player, mode: Seq<char>) -> (
    playlist::Interruption,
    Option<DeviceCommand>,
) {
    let action = playlist::interruption_of(mode);
    if player.interruption is Some {
        (playlist::Interruption::Already, None)
    } else if player.current is None || player.paused {
        (playlist::Interruption::Nothing, None)
    } else {
        (playlist::Interruption::Perform(action), interrupting(action))
    }
}

/// The wake word was heard: what becomes of music, and what the speaker is told
/// first. Where music is to be interrupted, `interruption_performed` takes what came
/// of it.
pub fn interrupt_for_wake(config: &MusicConfig, player: &MusicState) -> (r: (
    playlist::Interruption,
    Option<DeviceCommand>,
))
    ensures
        r == woken(player@, config.interruption.mode@),
{
    let mode: playlist::InterruptionAction = playlist::interruption_mode(
        config.interruption.mode.as_str(),
    );
    let interruption: playlist::Interruption = player.begin_interruption(mode);
    let command: Option<DeviceCommand> = match interruption {
        playlist::Interruption::Perform(action) => interrupting_command(action),
        _ => None,
    };
    (interruption, command)
}

/// Takes the interruption of music, to be undone: what it was, and what the speaker
/// is told. `interruption_undone` takes what came of it.
pub fn restore_after_interruption(player: &mut MusicState) -> (r: (
    Option<playlist::InterruptionAction>,
    Option<DeviceCommand>,
))
    ensures
        r == (old(player)@.interruption, restoring(old(player)@.interruption)),
        final(player)@ == playlist::uninterrupted(old(player)@),
{
    let action: Option<playlist::InterruptionAction> = player.take_interruption();
    (action, restoring_command(action))
}

/// What the speaker is told to interrupt music.
pub open spec fn interrupting(action: playlist::InterruptionAction) -> Option<DeviceCommand> {
    match action {
        playlist::InterruptionAction::Pause => Some(DeviceCommand::Pause),
        playlist::InterruptionAction::Duck => Some(DeviceCommand::Duck),
        playlist::InterruptionAction::Keep => None,
    }
}

/// What the speaker is told to interrupt music.
pub fn interrupting_command(action: playlist::InterruptionAction) -> (r: Option<DeviceCommand>)
    ensures
        r == interrupting(action),
{
    match action {
        playlist::InterruptionAction::Pause => Some(DeviceCommand::Pause),
        playlist::InterruptionAction::Duck => Some(DeviceCommand::Duck),
        playlist::InterruptionAction::Keep => None,
    }
}

/// The player after an attempt to interrupt it.
pub open spec fn performed(
    player: Player,
    action: playlist::InterruptionAction,
    done: bool,
) -> Player {
    if done {
        playlist::interrupted_player(player, action)
    } else {
        player
    }
}

/// Notes what came of an interruption. Says whether music is interrupted.
pub fn interruption_performed(
    player: &mut MusicState,
    action: playlist::InterruptionAction,
    outcome: &Result<(), String>,
) -> (r: bool)
    ensures
        r == (*outcome is Ok && old(player)@.current is Some),
        final(player)@ == performed(old(player)@, action, *outcome is Ok),
{
    match outcome {
        Ok(()) => player.interrupted(action),
        Err(_) => false,
    }
}

/// What the speaker is told to undo an interruption.
pub open spec fn restoring(action: Option<playlist::InterruptionAction>) -> Option<DeviceCommand> {
    match action {
        Some(playlist::InterruptionAction::Pause) => Some(DeviceCommand::Resume),
        Some(playlist::InterruptionAction::Duck) => Some(DeviceCommand::Unduck),
        _ => None,
    }
}

/// What the speaker is told to undo an interruption.
pub fn restoring_command(action: Option<playlist::InterruptionAction>) -> (r: Option<DeviceCommand>)
    ensures
        r == restoring(action),
{
    match action {
        Some(playlist::InterruptionAction::Pause) => Some(DeviceCommand::Resume),
        Some(playlist::InterruptionAction::Duck) => Some(DeviceCommand::Unduck),
        _ => None,
    }
}

/// The player after an attempt to undo an interruption.
pub open spec fn undone(
    player: Player,
    action: Option<playlist::InterruptionAction>,
    done: bool,
) -> Player {
    if action == Some(playlist::InterruptionAction::Pause) && done {
        playlist::resumed_player(player)
    } else {
        player
    }
}

/// Notes what came of undoing an interruption.
pub fn interruption_undone(
    player: &mut MusicState,
    action: Option<playlist::InterruptionAction>,
    outcome: &Result<(), String>,
)
    ensures
        final(player)@ == undone(old(player)@, action, *outcome is Ok),
{
    if let Some(playlist::InterruptionAction::Pause) = action {
        if outcome.is_ok() {
            player.resumed();
        }
    }
}

// ----------------------------------------------------------------------- laws

/// How far a request is from its answer.
pub open spec fn distance(job: Job) -> int {
    let left = (job.lookups.len() + job.songs.len()) as int;
    match job.phase {
        PhaseModel::Listing(_) => 2 * left + 2,
        PhaseModel::Resolving(_) => 2 * left + 1,
        PhaseModel::Locating(_) => 2 * left,
        PhaseModel::Starting(_) => 1,
        PhaseModel::Over => 0,
    }
}

/// What holds of a request between events: while it looks up or locates, there is
/// something left to look up or locate.
pub open spec fn job_ok(job: Job) -> bool {
    &&& job.phase is Resolving ==> job.lookups.len() > 0
    &&& job.phase is Locating ==> job.lookups.len() + job.songs.len() > 0
}

proof fn lemma_proceeding(config: MusicConfig, job: Job, player: Player)
    ensures
        ({
            let next = proceeding(config, job, player).job;
            let left = job.lookups.len() + job.songs.len();
            &&& job_ok(next)
            &&& distance(next) <= 2 * left + 1
        }),
    decreases job.lookups.len() + job.songs.len(),
{
    if job.lookups.len() > 0 && job.lookups[0] is ByQuery && music::search_provider_of(config) is Err
        && job.kind != JobKind::PlayQuery {
        lemma_proceeding(config, dropped(job), player);
    }
}

/// Every request comes to an answer: each event that it waits for brings it nearer,
/// but for the list of random songs, which comes first.
pub proof fn law_requests_come_to_an_answer(
    config: MusicConfig,
    job: Job,
    player: Player,
    event: MusicHappening,
)
    requires
        job_ok(job),
        expects(job, event),
    ensures
        job_ok(job_step(config, job, player, event).job),
        !(job.phase is Listing) ==> distance(job_step(config, job, player, event).job) < distance(
            job,
        ),
        !(job_step(config, job, player, event).job.phase is Listing),
        job_step(config, job, player, event).task is Answer <==> job_step(
            config,
            job,
            player,
            event,
        ).job.phase is Over,
{
    lemma_proceeding(config, dropped(job), player);
    lemma_task(config, dropped(job), player);
    match event {
        MusicHappening::Answered(Ok(data)) => {
            if let PhaseModel::Listing(provider) = job.phase {
                let listed = Job { songs: songs::drawn_songs(provider, data), ..job };
                lemma_proceeding(config, listed, player);
                lemma_task(config, listed, player);
            }
            if let PhaseModel::Locating(song) = job.phase {
                if let Some(url) = songs::netease_play_url(data) {
                    let held = dropped(Job { found: job.found.push(Item { song, url }), ..job });
                    lemma_proceeding(config, held, player);
                    lemma_task(config, held, player);
                }
            }
        },
        MusicHappening::Url(Ok(url)) => {
            let song = job.phase->Locating_0;
            let held = dropped(Job { found: job.found.push(Item { song, url }), ..job });
            lemma_proceeding(config, held, player);
            lemma_task(config, held, player);
        },
        _ => {},
    }
}

proof fn lemma_task(config: MusicConfig, job: Job, player: Player)
    ensures
        proceeding(config, job, player).task is Answer <==> proceeding(
            config,
            job,
            player,
        ).job.phase is Over,
        !(proceeding(config, job, player).job.phase is Listing),
    decreases job.lookups.len() + job.songs.len(),
{
    if job.lookups.len() > 0 && job.lookups[0] is ByQuery && music::search_provider_of(config) is Err
        && job.kind != JobKind::PlayQuery {
        lemma_task(config, dropped(job), player);
    }
}

/// Queueing adds exactly what was found, behind everything else, and loses
/// nothing, whether it starts to play or not.
pub proof fn law_queueing_keeps_songs(job: Job, player: Player)
    requires
        job.found.len() > 0,
    ensures
        playlist::all_songs(queueing(job, player).player) == playlist::all_songs(player)
            + job.found,
{
    let queued = Player { queue: player.queue + job.found, ..player };
    assert(playlist::all_songs(queued) =~= playlist::all_songs(player) + job.found);
    if player.current is None {
        playlist::law_next_keeps_songs(queued);
    }
}

/// A request that finds nothing leaves the player as it was.
pub proof fn law_finding_nothing_changes_nothing(job: Job, player: Player)
    requires
        job.found.len() == 0,
    ensures
        concluding(job, player).player == player,
        concluding(job, player).task is Answer,
{
}

/// Music that is interrupted and then restored plays as before, in every mode, when
/// the speaker does what it is told: it is paused and resumed, ducked and unducked,
/// or told nothing. Restoring once more tells the speaker nothing and changes
/// nothing.
pub proof fn law_restored_music_plays_as_before(p: Player, mode: Seq<char>)
    requires
        p.current is Some,
        !p.paused,
        p.interruption is None,
    ensures
        ({
            let action = playlist::interruption_of(mode);
            let during = performed(p, action, true);
            let taken = playlist::uninterrupted(during);
            let after = undone(taken, during.interruption, true);
            &&& woken(p, mode) == (playlist::Interruption::Perform(action), interrupting(action))
            &&& woken(during, mode) == (playlist::Interruption::Already, None::<DeviceCommand>)
            &&& during.interruption == Some(action)
            &&& after == p
            &&& match action {
                playlist::InterruptionAction::Pause => interrupting(action) == Some(
                    DeviceCommand::Pause,
                ) && restoring(during.interruption) == Some(DeviceCommand::Resume),
                playlist::InterruptionAction::Duck => interrupting(action) == Some(
                    DeviceCommand::Duck,
                ) && restoring(during.interruption) == Some(DeviceCommand::Unduck),
                playlist::InterruptionAction::Keep => interrupting(action) is None && restoring(
                    during.interruption,
                ) is None,
            }
            &&& restoring(after.interruption) is None
            &&& undone(playlist::uninterrupted(after), after.interruption, true) == after
        }),
{
}

// -------------------------------------------------------- requests as a whole

/// What a request comes to when something happens to it that it waits for.
#[verifier::opaque]
pub open spec fn happened(config: MusicConfig, next: Next, event: MusicHappening) -> Next {
    job_step(config, next.job, next.player, event)
}

/// What a request comes to when things happen to it, one after another; those that
/// it does not wait for change nothing.
#[verifier::opaque]
pub open spec fn job_run(config: MusicConfig, next: Next, events: Seq<MusicHappening>) -> Next
    decreases events.len(),
{
    if events.len() == 0 {
        next
    } else if expects(next.job, events[0]) {
        job_run(config, happened(config, next, events[0]), events.skip(1))
    } else {
        job_run(config, next, events.skip(1))
    }
}

/// The songs that can be played, each with where from; the others are passed over.
pub open spec fn located(songs: Seq<SongModel>, urls: Seq<Result<Seq<char>, Seq<char>>>) -> Seq<Item>
    decreases songs.len(),
{
    if songs.len() == 0 || urls.len() == 0 {
        Seq::empty()
    } else {
        (match urls[0] {
            Ok(url) => seq![Item { song: songs[0], url }],
            Err(_) => Seq::empty(),
        }) + located(songs.skip(1), urls.skip(1))
    }
}

/// The songs that answers of Navidrome describe.
pub open spec fn described(answers: Seq<JsonTree>) -> Seq<SongModel> {
    answers.map_values(
        |data: JsonTree|
            songs::navidrome_song(
                match json::member(data, "song"@) {
                    Some(item) => item,
                    None => JsonTree::Null,
                },
            ),
    )
}

/// A service describes song after song, and each is located or not.
pub open spec fn described_and_located(
    answers: Seq<JsonTree>,
    urls: Seq<Result<Seq<char>, Seq<char>>>,
) -> Seq<MusicHappening>
    decreases answers.len(),
{
    if answers.len() == 0 || urls.len() == 0 {
        Seq::empty()
    } else {
        seq![MusicHappening::Answered(Ok(answers[0])), MusicHappening::Url(urls[0])]
            + described_and_located(answers.skip(1), urls.skip(1))
    }
}

/// Song after song is located or not.
pub open spec fn only_located(urls: Seq<Result<Seq<char>, Seq<char>>>) -> Seq<MusicHappening> {
    urls.map_values(|url: Result<Seq<char>, Seq<char>>| MusicHappening::Url(url))
}

proof fn lemma_run_step(
    config: MusicConfig,
    next: Next,
    event: MusicHappening,
    rest: Seq<MusicHappening>,
)
    requires
        expects(next.job, event),
    ensures
        job_run(config, next, seq![event] + rest) == job_run(
            config,
            happened(config, next, event),
            rest,
        ),
{
    reveal(job_run);
    assert((seq![event] + rest).skip(1) =~= rest);
    assert((seq![event] + rest)[0] == event);
}

proof fn lemma_run_over(config: MusicConfig, next: Next)
    ensures
        job_run(config, next, Seq::empty()) == next,
{
    reveal(job_run);
}

/// One lookup by an identifier, with Navidrome.
proof fn lemma_one_lookup(
    config: MusicConfig,
    job: Job,
    player: Player,
    data: JsonTree,
    url: Result<Seq<char>, Seq<char>>,
)
    requires
        config.provider@ == "navidrome"@,
        job.kind != JobKind::PlayQuery,
        job.lookups.len() > 0,
        job.lookups[0] is ById,
        json::member(data, "song"@) is Some,
    ensures
        ({
            let song = songs::navidrome_song(json::member(data, "song"@)->0);
            let asked = proceeding(config, job, player);
            let found = happened(config, asked, MusicHappening::Answered(Ok(data)));
            let after = happened(config, found, MusicHappening::Url(url));
            let gained = match url {
                Ok(url) => seq![Item { song, url }],
                Err(_) => Seq::<Item>::empty(),
            };
            &&& expects(asked.job, MusicHappening::Answered(Ok(data)))
            &&& expects(found.job, MusicHappening::Url(url))
            &&& after == proceeding(
                config,
                Job {
                    lookups: job.lookups.skip(1),
                    found: job.found + gained,
                    phase: PhaseModel::Locating(song),
                    ..job
                },
                player,
            )
        }),
{
    reveal(happened);
    let song = songs::navidrome_song(json::member(data, "song"@)->0);
    let gained = match url {
        Ok(url) => seq![Item { song, url }],
        Err(_) => Seq::<Item>::empty(),
    };
    assert(job.found + Seq::<Item>::empty() =~= job.found);
    if let Ok(url) = url {
        assert(job.found.push(Item { song, url }) =~= job.found + gained);
    }
}

proof fn lemma_lookups_run(
    config: MusicConfig,
    job: Job,
    player: Player,
    answers: Seq<JsonTree>,
    urls: Seq<Result<Seq<char>, Seq<char>>>,
)
    requires
        config.provider@ == "navidrome"@,
        job.kind != JobKind::PlayQuery,
        job.songs.len() == 0,
        job.lookups.len() == answers.len(),
        urls.len() == answers.len(),
        forall|i: int| 0 <= i < job.lookups.len() ==> (#[trigger] job.lookups[i]) is ById,
        forall|i: int|
            0 <= i < answers.len() ==> json::member(#[trigger] answers[i], "song"@) is Some,
    ensures
        job_run(
            config,
            proceeding(config, job, player),
            described_and_located(answers, urls),
        ) == concluding(
            Job {
                lookups: Seq::empty(),
                found: job.found + located(described(answers), urls),
                ..job
            },
            player,
        ),
    decreases answers.len(),
{
    if answers.len() == 0 {
        lemma_run_over(config, proceeding(config, job, player));
        assert(described_and_located(answers, urls) =~= Seq::empty());
        assert(job.found + located(described(answers), urls) =~= job.found);
        assert(job.lookups =~= Seq::empty());
    } else {
        let asked = proceeding(config, job, player);
        let rest = described_and_located(answers.skip(1), urls.skip(1));
        let song = described(answers)[0];
        assert(job.lookups[0] is ById);
        assert(json::member(answers[0], "song"@) is Some);
        let gained = match urls[0] {
            Ok(url) => seq![Item { song, url }],
            Err(_) => Seq::<Item>::empty(),
        };
        let held = Job {
            lookups: job.lookups.skip(1),
            found: job.found + gained,
            phase: PhaseModel::Locating(song),
            ..job
        };
        let first = MusicHappening::Answered(Ok(answers[0]));
        let second = MusicHappening::Url(urls[0]);
        lemma_one_lookup(config, job, player, answers[0], urls[0]);
        lemma_run_step(config, asked, first, seq![second] + rest);
        lemma_run_step(
            config,
            happened(config, asked, first),
            second,
            rest,
        );
        assert(seq![first] + (seq![second] + rest) =~= described_and_located(answers, urls));
        assert forall|i: int| 0 <= i < held.lookups.len() implies (
        #[trigger] held.lookups[i]) is ById by {
            assert(held.lookups[i] == job.lookups[i + 1]);
        }
        assert forall|i: int| 0 <= i < answers.skip(1).len() implies json::member(
            #[trigger] answers.skip(1)[i],
            "song"@,
        ) is Some by {
            assert(answers.skip(1)[i] == answers[i + 1]);
        }
        lemma_lookups_run(config, held, player, answers.skip(1), urls.skip(1));
        assert(described(answers).skip(1) =~= described(answers.skip(1)));
        assert((job.found + gained) + located(described(answers.skip(1)), urls.skip(1))
            =~= job.found + located(described(answers), urls));
    }
}

proof fn lemma_songs_run(
    config: MusicConfig,
    job: Job,
    player: Player,
    urls: Seq<Result<Seq<char>, Seq<char>>>,
)
    requires
        config.provider@ == "navidrome"@,
        job.kind != JobKind::PlayQuery,
        job.lookups.len() == 0,
        job.songs.len() == urls.len(),
    ensures
        job_run(config, proceeding(config, job, player), only_located(urls)) == concluding(
            Job { songs: Seq::empty(), found: job.found + located(job.songs, urls), ..job },
            player,
        ),
    decreases urls.len(),
{
    reveal(happened);
    if urls.len() == 0 {
        lemma_run_over(config, proceeding(config, job, player));
        assert(only_located(urls) =~= Seq::empty());
        assert(job.found + located(job.songs, urls) =~= job.found);
        assert(job.songs =~= Seq::empty());
    } else {
        let asked = proceeding(config, job, player);
        let events = only_located(urls);
        let song = job.songs[0];
        let after = happened(config, asked, events[0]);
        assert(events.skip(1) =~= only_located(urls.skip(1)));
        let gained = match urls[0] {
            Ok(url) => seq![Item { song, url }],
            Err(_) => Seq::<Item>::empty(),
        };
        let held = Job { songs: job.songs.skip(1), found: job.found + gained, ..asked.job };
        assert(job.found + Seq::<Item>::empty() =~= job.found);
        if let Ok(url) = urls[0] {
            assert(job.found.push(Item { song, url }) =~= job.found + gained);
        }
        assert(after == proceeding(config, held, player));
        lemma_run_step(config, asked, events[0], only_located(urls.skip(1)));
        assert(seq![events[0]] + only_located(urls.skip(1)) =~= events);
        lemma_songs_run(config, held, player, urls.skip(1));
        assert((job.found + gained) + located(job.songs.skip(1), urls.skip(1)) =~= job.found
            + located(job.songs, urls));
    }
}

/// What queueing some songs must leave, and what the speaker or the user is told. It
/// starts a song exactly where there is none: the first of the queue. Where there is
/// one, playing or paused, it stays as it is.
pub open spec fn queues(player: Player, added: Seq<Item>, next: Next) -> bool {
    let queue = player.queue + added;
    &&& next.player.interruption == player.interruption
    &&& match player.current {
        Some(current) => {
            &&& next.player.current == Some(current)
            &&& next.player.queue == queue
            &&& next.player.history == player.history
            &&& next.player.paused == player.paused
            &&& next.job.phase is Over
            &&& next.task == TaskModel::Answer(
                JsonTree::Object(
                    seq![
                        (
                            "added"@,
                            JsonTree::List(added.map_values(|i: Item| songs::song_tree(i.song))),
                        ),
                    ],
                ),
            )
        },
        None => {
            &&& next.player.current == Some(queue[0])
            &&& next.player.queue == queue.skip(1)
            &&& next.player.history == player.history
            &&& !next.player.paused
            &&& next.job.phase == PhaseModel::Starting(queue[0])
            &&& next.task == TaskModel::Play(queue[0].url)
        },
    }
}

proof fn lemma_queues(job: Job, player: Player)
    requires
        job.found.len() > 0,
        job.kind == JobKind::AddToQueue || job.kind == JobKind::AddRandom,
    ensures
        queues(player, job.found, concluding(job, player)),
{
    assert(playlist::songs_of(job.found).map_values(|s: SongModel| songs::song_tree(s))
        =~= job.found.map_values(|i: Item| songs::song_tree(i.song)));
}

/// Queueing songs by their identifiers, with Navidrome: each is described and then
/// located. Those that can be played are put behind the queue, in order; where none
/// can, the player stays as it is and that is the answer.
pub proof fn law_queueing_by_identifier(
    config: MusicConfig,
    player: Player,
    song_ids: Seq<char>,
    answers: Seq<JsonTree>,
    urls: Seq<Result<Seq<char>, Seq<char>>>,
)
    requires
        config.provider@ == "navidrome"@,
        playlist::entries(playlist::pieces(song_ids)).len() == answers.len(),
        urls.len() == answers.len(),
        forall|i: int|
            0 <= i < answers.len() ==> json::member(#[trigger] answers[i], "song"@) is Some,
    ensures
        ({
            let start = proceeding(config, queue_job(Seq::empty(), song_ids), player);
            let end = job_run(config, start, described_and_located(answers, urls));
            let added = located(described(answers), urls);
            if added.len() > 0 {
                queues(player, added, end)
            } else {
                &&& end.player == player
                &&& end.task == TaskModel::Answer(
                    JsonTree::Object(
                        seq![("error"@, JsonTree::Text("no playable songs resolved"@))],
                    ),
                )
            }
        }),
{
    let job = queue_job(Seq::empty(), song_ids);
    reveal_with_fuel(playlist::pieces, 2);
    reveal_with_fuel(playlist::entries, 2);
    let none = playlist::entries(playlist::pieces(Seq::<char>::empty()));
    assert(playlist::pieces(Seq::<char>::empty()).drop_last() =~= Seq::empty());
    assert(none.len() == 0) by {
        text::law_trimmed(Seq::<char>::empty());
    }
    assert(job.lookups.len() == answers.len());
    lemma_lookups_run(config, job, player, answers, urls);
    let added = located(described(answers), urls);
    assert(job.found + added =~= added);
    if added.len() > 0 {
        lemma_queues(Job { lookups: Seq::empty(), found: added, ..job }, player);
    }
}

/// Random songs, with Navidrome: a list is drawn, no shorter than one and no longer
/// than a hundred, and each song in it is located. Adding puts those that can be
/// played behind the queue. Playing puts them in place of everything there was, and
/// starts the first.
pub proof fn law_random_songs(
    config: MusicConfig,
    player: Player,
    add: bool,
    count: usize,
    data: JsonTree,
    urls: Seq<Result<Seq<char>, Seq<char>>>,
)
    requires
        config.enabled,
        config.provider@ == "navidrome"@,
        urls.len() == songs::drawn_songs(Provider::Navidrome, data).len(),
    ensures
        ({
            let kind = if add {
                JobKind::AddRandom
            } else {
                JobKind::PlayRandom
            };
            let start = random_start(config, kind, count, player);
            let events = seq![MusicHappening::Answered(Ok(data))] + only_located(urls);
            let end = job_run(config, start, events);
            let found = located(songs::drawn_songs(Provider::Navidrome, data), urls);
            &&& start.player == player
            &&& start.task == (TaskModel::Ask {
                provider: Provider::Navidrome,
                query: QueryModel {
                    path: "/rest/getRandomSongs.view"@,
                    params: seq![
                        (
                            "size"@,
                            text::decimal(
                                if count < 1 {
                                    1
                                } else if count > 100 {
                                    100
                                } else {
                                    count as nat
                                },
                            ),
                        ),
                    ],
                },
            })
            &&& found.len() == 0 ==> end.player == player && end.task == TaskModel::Answer(
                JsonTree::Object(
                    seq![("error"@, JsonTree::Text("no playable random songs resolved"@))],
                ),
            )
            &&& found.len() > 0 && add ==> queues(player, found, end)
            &&& found.len() > 0 && !add ==> {
                &&& end.task == TaskModel::Play(found[0].url)
                &&& end.player.current == Some(found[0])
                &&& end.player.queue == found.skip(1)
                &&& end.player.history.len() == 0
                &&& !end.player.paused
                &&& end.player.interruption == player.interruption
            }
        }),
{
    reveal(happened);
    let kind = if add {
        JobKind::AddRandom
    } else {
        JobKind::PlayRandom
    };
    let start = random_start(config, kind, count, player);
    let events = seq![MusicHappening::Answered(Ok(data))] + only_located(urls);
    let drawn = songs::drawn_songs(Provider::Navidrome, data);
    let listed = Job { songs: drawn, ..start.job };
    lemma_run_step(config, start, events[0], only_located(urls));
    assert(job_run(config, start, events) == job_run(
        config,
        proceeding(config, listed, player),
        only_located(urls),
    ));
    lemma_songs_run(config, listed, player, urls);
    let found = located(drawn, urls);
    assert(listed.found + found =~= found);
    if found.len() > 0 && add {
        lemma_queues(Job { songs: Seq::empty(), found, ..listed }, player);
    }
}

/// Playing one song, with Navidrome, by its identifier or by a search for one: it is
/// found, located, and handed to the speaker. Only once the speaker plays it, it is
/// the current song, alone: whatever went wrong before leaves the player as it was.
pub proof fn law_playing_one_song(
    config: MusicConfig,
    player: Player,
    query: Seq<char>,
    song_id: Seq<char>,
    data: JsonTree,
    url: Seq<char>,
    e: Seq<char>,
)
    requires
        config.enabled,
        config.provider@ == "navidrome"@,
        text::trimmed(song_id).len() > 0 ==> json::member(data, "song"@) is Some,
        text::trimmed(song_id).len() == 0 ==> songs::found_songs(Provider::Navidrome, data).len()
            > 0,
    ensures
        ({
            let by_id = text::trimmed(song_id).len() > 0;
            let start = proceeding(config, query_job(query, song_id), player);
            let answered = seq![MusicHappening::Answered(Ok(data))];
            let song = if by_id {
                songs::navidrome_song(json::member(data, "song"@)->0)
            } else {
                songs::found_songs(Provider::Navidrome, data)[0]
            };
            let given = answered.push(MusicHappening::Url(Ok(url)));
            let played = job_run(config, start, given.push(MusicHappening::Played(Ok(()))));
            let failed = job_run(config, start, given.push(MusicHappening::Played(Err(e))));
            let unplayable = job_run(config, start, answered.push(MusicHappening::Url(Err(e))));
            let unknown = job_run(config, start, seq![MusicHappening::Answered(Err(e))]);
            let error = JsonTree::Object(seq![("error"@, JsonTree::Text(e))]);
            &&& start.task == (TaskModel::Ask {
                provider: Provider::Navidrome,
                query: if by_id {
                    QueryModel {
                        path: "/rest/getSong.view"@,
                        params: seq![("id"@, text::trimmed(song_id))],
                    }
                } else {
                    QueryModel {
                        path: "/rest/search3.view"@,
                        params: seq![
                            ("query"@, query),
                            ("songCount"@, text::decimal(1)),
                            ("artistCount"@, "3"@),
                            ("albumCount"@, "3"@),
                        ],
                    }
                },
            })
            &&& job_run(config, start, answered).task == TaskModel::StreamUrl(song.id)
            &&& job_run(config, start, given).task == TaskModel::Play(url)
            &&& job_run(config, start, given).player == player
            &&& played.player == (Player {
                current: Some(Item { song, url }),
                queue: Seq::empty(),
                history: Seq::empty(),
                paused: false,
                interruption: player.interruption,
            })
            &&& played.task == TaskModel::Answer(
                JsonTree::Object(
                    seq![
                        ("playing"@, JsonTree::Bool(true)),
                        ("song"@, songs::song_tree(song)),
                        ("queue_size"@, JsonTree::Number(json::NumberTree::Unsigned(0))),
                    ],
                ),
            )
            &&& failed.player == player && failed.task == TaskModel::Answer(
                JsonTree::Object(
                    seq![("error"@, JsonTree::Text(e)), ("song"@, songs::song_tree(song))],
                ),
            )
            &&& unplayable.player == player && unplayable.task == TaskModel::Answer(error)
            &&& unknown.player == player && unknown.task == TaskModel::Answer(error)
        }),
{
    let by_id = text::trimmed(song_id).len() > 0;
    let start = proceeding(config, query_job(query, song_id), player);
    let song = if by_id {
        songs::navidrome_song(json::member(data, "song"@)->0)
    } else {
        songs::found_songs(Provider::Navidrome, data)[0]
    };
    let first = MusicHappening::Answered(Ok(data));
    let second = MusicHappening::Url(Ok(url));
    let none = Seq::<MusicHappening>::empty();
    assert("navidrome"@ != "netease"@) by {
        reveal_strlit("navidrome");
        reveal_strlit("netease");
        assert("navidrome"@.len() == 9 && "netease"@.len() == 7);
    }
    lemma_one_song_asked(config, player, query, song_id, data, e);
    let found = happened(config, start, first);
    lemma_one_song_given(config, found, song, url, e);
    let given = happened(config, found, second);
    let ok = MusicHappening::Played(Ok(()));
    let bad = MusicHappening::Played(Err(e));
    let lost = MusicHappening::Url(Err(e));
    let unknown = MusicHappening::Answered(Err(e));
    lemma_run_over(config, found);
    lemma_run_over(config, given);
    lemma_run_over(config, happened(config, given, ok));
    lemma_run_over(config, happened(config, given, bad));
    lemma_run_over(config, happened(config, found, lost));
    lemma_run_over(config, happened(config, start, unknown));
    lemma_run_step(config, start, first, none);
    assert(seq![first] + none =~= seq![first]);
    lemma_run_step(config, start, first, seq![second]);
    assert(seq![first] + seq![second] =~= seq![first].push(second));
    lemma_run_step(config, found, second, none);
    assert(seq![second] + none =~= seq![second]);
    lemma_run_step(config, start, first, seq![second, ok]);
    assert(seq![first] + seq![second, ok] =~= seq![first].push(second).push(ok));
    lemma_run_step(config, found, second, seq![ok]);
    assert(seq![second] + seq![ok] =~= seq![second, ok]);
    lemma_run_step(config, given, ok, none);
    assert(seq![ok] + none =~= seq![ok]);
    lemma_run_step(config, start, first, seq![second, bad]);
    assert(seq![first] + seq![second, bad] =~= seq![first].push(second).push(bad));
    lemma_run_step(config, found, second, seq![bad]);
    assert(seq![second] + seq![bad] =~= seq![second, bad]);
    lemma_run_step(config, given, bad, none);
    assert(seq![bad] + none =~= seq![bad]);
    lemma_run_step(config, start, first, seq![lost]);
    assert(seq![first] + seq![lost] =~= seq![first].push(lost));
    lemma_run_step(config, found, lost, none);
    assert(seq![lost] + none =~= seq![lost]);
    lemma_run_step(config, start, unknown, none);
    assert(seq![unknown] + none =~= seq![unknown]);
}

/// The first two steps of a request for one song, with Navidrome.
proof fn lemma_one_song_asked(
    config: MusicConfig,
    player: Player,
    query: Seq<char>,
    song_id: Seq<char>,
    data: JsonTree,
    e: Seq<char>,
)
    requires
        config.enabled,
        config.provider@ == "navidrome"@,
        "navidrome"@ != "netease"@,
        text::trimmed(song_id).len() > 0 ==> json::member(data, "song"@) is Some,
        text::trimmed(song_id).len() == 0 ==> songs::found_songs(Provider::Navidrome, data).len()
            > 0,
    ensures
        ({
            let by_id = text::trimmed(song_id).len() > 0;
            let start = proceeding(config, query_job(query, song_id), player);
            let first = MusicHappening::Answered(Ok(data));
            let unknown = MusicHappening::Answered(Err(e));
            let song = if by_id {
                songs::navidrome_song(json::member(data, "song"@)->0)
            } else {
                songs::found_songs(Provider::Navidrome, data)[0]
            };
            let found = happened(config, start, first);
            let lost = happened(config, start, unknown);
            &&& start.player == player
            &&& start.task == (TaskModel::Ask {
                provider: Provider::Navidrome,
                query: if by_id {
                    QueryModel {
                        path: "/rest/getSong.view"@,
                        params: seq![("id"@, text::trimmed(song_id))],
                    }
                } else {
                    QueryModel {
                        path: "/rest/search3.view"@,
                        params: seq![
                            ("query"@, query),
                            ("songCount"@, text::decimal(1)),
                            ("artistCount"@, "3"@),
                            ("albumCount"@, "3"@),
                        ],
                    }
                },
            })
            &&& expects(start.job, first) && expects(start.job, unknown)
            &&& found.player == player && found.task == TaskModel::StreamUrl(song.id)
            &&& found.job.kind == JobKind::PlayQuery
            &&& found.job.phase == PhaseModel::Locating(song)
            &&& lost.player == player && lost.task == TaskModel::Answer(
                JsonTree::Object(seq![("error"@, JsonTree::Text(e))]),
            )
        }),
{
    reveal(happened);
}

/// The last two steps of a request for one song.
proof fn lemma_one_song_given(
    config: MusicConfig,
    found: Next,
    song: SongModel,
    url: Seq<char>,
    e: Seq<char>,
)
    requires
        found.job.kind == JobKind::PlayQuery,
        found.job.phase == PhaseModel::Locating(song),
    ensures
        ({
            let second = MusicHappening::Url(Ok(url));
            let lost = MusicHappening::Url(Err(e));
            let ok = MusicHappening::Played(Ok(()));
            let bad = MusicHappening::Played(Err(e));
            let given = happened(config, found, second);
            let gone = happened(config, found, lost);
            let played = happened(config, given, ok);
            let failed = happened(config, given, bad);
            &&& expects(found.job, second) && expects(found.job, lost)
            &&& expects(given.job, ok) && expects(given.job, bad)
            &&& given.task == TaskModel::Play(url) && given.player == found.player
            &&& gone.player == found.player && gone.task == TaskModel::Answer(
                JsonTree::Object(seq![("error"@, JsonTree::Text(e))]),
            )
            &&& played.player == (Player {
                current: Some(Item { song, url }),
                queue: Seq::empty(),
                history: Seq::empty(),
                paused: false,
                interruption: found.player.interruption,
            })
            &&& played.task == TaskModel::Answer(
                JsonTree::Object(
                    seq![
                        ("playing"@, JsonTree::Bool(true)),
                        ("song"@, songs::song_tree(song)),
                        ("queue_size"@, JsonTree::Number(json::NumberTree::Unsigned(0))),
                    ],
                ),
            )
            &&& failed.player == found.player && failed.task == TaskModel::Answer(
                JsonTree::Object(
                    seq![("error"@, JsonTree::Text(e)), ("song"@, songs::song_tree(song))],
                ),
            )
        }),
{
    reveal(happened);
}

/// With NetEase an identifier is a song by itself, and where it plays from is asked
/// of the service, at the level that is set; what the service then names is what the
/// speaker is handed.
pub proof fn law_netease_songs_are_located(
    config: MusicConfig,
    player: Player,
    query: Seq<char>,
    song_id: Seq<char>,
    data: JsonTree,
    url: Seq<char>,
)
    requires
        config.provider@ != "navidrome"@,
        text::trimmed(song_id).len() > 0,
        songs::netease_play_url(data) == Some(url),
    ensures
        ({
            let id = text::trimmed(song_id);
            let start = proceeding(config, query_job(query, song_id), player);
            let given = job_run(config, start, seq![MusicHappening::Answered(Ok(data))]);
            &&& start.task == (TaskModel::Ask {
                provider: Provider::Netease,
                query: QueryModel {
                    path: "/song/url/v1"@,
                    params: seq![("id"@, id), ("level"@, config.netease.default_level@)],
                },
            })
            &&& given.task == TaskModel::Play(url)
            &&& given.player == player
            &&& given.job.phase matches PhaseModel::Starting(item) && item.url == url
                && item.song.id == id && item.song.name == id
        }),
{
    reveal(happened);
    let start = proceeding(config, query_job(query, song_id), player);
    let event = MusicHappening::Answered(Ok(data));
    lemma_run_step(config, start, event, Seq::empty());
    assert(seq![event] + Seq::<MusicHappening>::empty() =~= seq![event]);
    lemma_run_over(config, happened(config, start, event));
}

/// Once a queued song is started, or not, nothing more changes: the answer says what
/// was added, or what went wrong.
pub proof fn law_started_songs_are_answered(
    config: MusicConfig,
    job: Job,
    player: Player,
    item: Item,
    e: Seq<char>,
)
    requires
        job.phase == PhaseModel::Starting(item),
        job.kind == JobKind::AddToQueue || job.kind == JobKind::AddRandom || job.kind
            == JobKind::PlayRandom,
        player.queue.len() <= u64::MAX,
    ensures
        ({
            let done = job_step(config, job, player, MusicHappening::Played(Ok(())));
            let failed = job_step(config, job, player, MusicHappening::Played(Err(e)));
            &&& done.player == player && failed.player == player
            &&& done.job.phase is Over && failed.job.phase is Over
            &&& failed.task == TaskModel::Answer(
                JsonTree::Object(seq![("error"@, JsonTree::Text(e))]),
            )
            &&& done.task == TaskModel::Answer(
                JsonTree::Object(
                    if job.kind == JobKind::PlayRandom {
                        seq![
                            ("playing"@, JsonTree::Bool(true)),
                            ("song"@, songs::song_tree(item.song)),
                            (
                                "queue_size"@,
                                JsonTree::Number(
                                    json::NumberTree::Unsigned(player.queue.len() as u64),
                                ),
                            ),
                        ]
                    } else {
                        seq![
                            (
                                "added"@,
                                JsonTree::List(
                                    job.found.map_values(|i: Item| songs::song_tree(i.song)),
                                ),
                            ),
                        ]
                    },
                ),
            )
        }),
{
    assert(playlist::songs_of(job.found).map_values(|s: SongModel| songs::song_tree(s))
        =~= job.found.map_values(|i: Item| songs::song_tree(i.song)));
}

} // verus!
