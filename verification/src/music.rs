use vstd::prelude::*;
use crate::text::{str_eq, occurs_at, occurs_at_exec, byte_prefix, chars_in_first_bytes, parse_u32_spec, take_chars, string_of, chars_of, dec, dec2, parse_u64_spec, parse_unsigned, push_decimal, push_decimal2, split_chars, split_on};

verus! {

// ---------------------------------------------------------------------------
// Durations and seek positions
// ---------------------------------------------------------------------------

/// A length in seconds as it is shown: `m:ss`, the whole minutes (however many) and the
/// seconds in two digits.
pub open spec fn duration_text(sec: nat) -> Seq<char> {
    dec(sec / 60) + ":"@ + dec2(sec % 60)
}

/// Formats a length in seconds as `m:ss`: the whole minutes, a colon and the seconds in two
/// digits, for every length.
pub fn format_duration(sec: u64) -> (r: String)
    ensures
        r@ == duration_text(sec as nat),
{
    let mut out = String::new();
    push_decimal(&mut out, sec / 60);
    out.append(":");
    push_decimal2(&mut out, sec % 60);
    out
}

/// A length printed by `format_duration` reads back, as a time, as the same number of
/// seconds.
pub proof fn law_printed_duration_reads_back(sec: u64)
    ensures
        time_value(duration_text(sec as nat)) == Some(sec as int),
{
    let m = (sec / 60) as nat;
    let s = (sec % 60) as nat;
    crate::text::lemma_dec_reads_back(m);
    crate::text::lemma_dec2_reads_back(s);
    let a = dec(m);
    let b = dec2(s);
    assert forall|i: int| 0 <= i < a.len() implies a[i] != ':' by {
        assert(crate::text::is_ascii_digit(a[i]));
    }
    assert forall|i: int| 0 <= i < b.len() implies b[i] != ':' by {
        assert(crate::text::is_ascii_digit(b[i]));
    }
    crate::text::lemma_split_on_none(a, ':');
    crate::text::lemma_split_on_none(b, ':');
    crate::text::lemma_split_on_join(a, ':', b);
    assert(a + ":"@ + b =~= a.push(':') + b) by {
        reveal_strlit(":");
    }
    let p = split_on(duration_text(sec as nat), ':');
    assert(p =~= seq![a, b]);
    assert(a[0] != '+');
    assert(b[0] != '+');
}

/// The number of seconds that a time written as `s`, `m:s` or `h:m:s` stands for, each part
/// read as `u64` by `str::parse`; `None` when a part does not parse or there are more parts.
pub open spec fn time_value(t: Seq<char>) -> Option<int> {
    let p = split_on(t, ':');
    if p.len() == 1 {
        match parse_u64_spec(p[0]) {
            Some(s) => Some(s as int),
            None => None,
        }
    } else if p.len() == 2 {
        match (parse_u64_spec(p[0]), parse_u64_spec(p[1])) {
            (Some(m), Some(s)) => Some(m * 60 + s),
            _ => None,
        }
    } else if p.len() == 3 {
        match (parse_u64_spec(p[0]), parse_u64_spec(p[1]), parse_u64_spec(p[2])) {
            (Some(h), Some(m), Some(s)) => Some(h * 3600 + m * 60 + s),
            _ => None,
        }
    } else {
        None
    }
}

/// The time fits in a `u64` wherever it is defined.
pub open spec fn time_fits(t: Seq<char>) -> bool {
    time_value(t) matches Some(v) ==> v <= u64::MAX
}

fn parse_piece(p: &Vec<char>) -> (r: Option<u64>)
    ensures
        r == parse_u64_spec(p@),
{
    assert(p@.subrange(0, p.len() as int) == p@);
    parse_unsigned(p, 0, p.len(), u64::MAX)
}

fn time_of_chars(v: &Vec<char>) -> (r: Option<u64>)
    requires
        time_fits(v@),
    ensures
        r == (match time_value(v@) {
            Some(x) => Some(x as u64),
            None => None,
        }),
{
    let parts = split_chars(v, ':');
    let ghost p = split_on(v@, ':');
    assert(parts.len() == p.len());
    if parts.len() == 1 {
        assert(parts[0]@ == p[0]);
        parse_piece(&parts[0])
    } else if parts.len() == 2 {
        assert(parts[0]@ == p[0]);
        assert(parts[1]@ == p[1]);
        let m = match parse_piece(&parts[0]) {
            Some(x) => x,
            None => return None,
        };
        let s = match parse_piece(&parts[1]) {
            Some(x) => x,
            None => return None,
        };
        Some(m * 60 + s)
    } else if parts.len() == 3 {
        assert(parts[0]@ == p[0]);
        assert(parts[1]@ == p[1]);
        assert(parts[2]@ == p[2]);
        let h = match parse_piece(&parts[0]) {
            Some(x) => x,
            None => return None,
        };
        let m = match parse_piece(&parts[1]) {
            Some(x) => x,
            None => return None,
        };
        let s = match parse_piece(&parts[2]) {
            Some(x) => x,
            None => return None,
        };
        Some(h * 3600 + m * 60 + s)
    } else {
        None
    }
}

fn time_of_chars_wide(v: &Vec<char>) -> (r: Option<u128>)
    ensures
        r == (match time_value(v@) {
            Some(x) => Some(x as u128),
            None => None,
        }),
        r matches Some(x) ==> x <= 0xffff_ffff_ffff_ffffu128 * 3661,
{
    let parts = split_chars(v, ':');
    let ghost p = split_on(v@, ':');
    assert(parts.len() == p.len());
    if parts.len() == 1 {
        assert(parts[0]@ == p[0]);
        match parse_piece(&parts[0]) {
            Some(x) => Some(x as u128),
            None => None,
        }
    } else if parts.len() == 2 {
        assert(parts[0]@ == p[0]);
        assert(parts[1]@ == p[1]);
        let m = match parse_piece(&parts[0]) {
            Some(x) => x,
            None => return None,
        };
        let s = match parse_piece(&parts[1]) {
            Some(x) => x,
            None => return None,
        };
        Some(m as u128 * 60 + s as u128)
    } else if parts.len() == 3 {
        assert(parts[0]@ == p[0]);
        assert(parts[1]@ == p[1]);
        assert(parts[2]@ == p[2]);
        let h = match parse_piece(&parts[0]) {
            Some(x) => x,
            None => return None,
        };
        let m = match parse_piece(&parts[1]) {
            Some(x) => x,
            None => return None,
        };
        let s = match parse_piece(&parts[2]) {
            Some(x) => x,
            None => return None,
        };
        Some(h as u128 * 3600 + m as u128 * 60 + s as u128)
    } else {
        None
    }
}

/// Whether a time written as seconds, `m:s` or `h:m:s` comes to a total that fits in a
/// `u64` (or is no time at all), as `parse_time_to_secs` needs.
pub fn time_fits_u64(s: &str) -> (b: bool)
    ensures
        b == time_fits(s@),
{
    let v = chars_of(s);
    match time_of_chars_wide(&v) {
        Some(x) => x <= u64::MAX as u128,
        None => true,
    }
}

/// Whether the time of a seek request (after its sign, if any) fits in a `u64`, as
/// `parse_seek_request` needs.
pub fn seek_input_fits(input: &str) -> (b: bool)
    ensures
        b == time_fits(seek_time_part(input@)),
{
    let v = chars_of(input);
    let relative = v.len() > 0 && (v[0] == '+' || v[0] == '-');
    let mut t: Vec<char> = Vec::new();
    let mut i: usize = if relative {
        1
    } else {
        0
    };
    let start = i;
    while i < v.len()
        invariant
            start <= i <= v.len(),
            start == (if relative {
                1usize
            } else {
                0usize
            }),
            t@ == v@.subrange(start as int, i as int),
        decreases v.len() - i,
    {
        t.push(v[i]);
        i = i + 1;
        assert(v@.subrange(start as int, i as int) == v@.subrange(start as int, (i - 1) as int).push(
            v@[i - 1],
        ));
    }
    if relative {
        assert(t@ =~= v@.drop_first());
    } else {
        assert(t@ =~= v@);
    }
    match time_of_chars_wide(&t) {
        Some(x) => x <= u64::MAX as u128,
        None => true,
    }
}

/// Reads a time written as seconds, `m:s` or `h:m:s` into seconds. The total must fit in a
/// `u64` (the arithmetic overflows otherwise; `time_fits_u64` tells beforehand).
pub fn parse_time_to_secs(s: &str) -> (r: Option<u64>)
    requires
        time_fits(s@),
    ensures
        r == (match time_value(s@) {
            Some(x) => Some(x as u64),
            None => None,
        }),
{
    let v = chars_of(s);
    time_of_chars(&v)
}

/// Where a seek command moves the playback position.
#[derive(Clone, Copy, PartialEq, Eq, Debug)]
pub enum SeekRequest {
    /// To this many seconds from the start.
    To(u64),
    /// Forward by this many seconds.
    Forward(u64),
    /// Back by this many seconds.
    Backward(u64),
}

/// A leading `+` or `-` makes the time relative to the current position.
pub open spec fn seek_is_relative(input: Seq<char>) -> bool {
    input.len() > 0 && (input[0] == '+' || input[0] == '-')
}

/// The time part of a seek command.
pub open spec fn seek_time_part(input: Seq<char>) -> Seq<char> {
    if seek_is_relative(input) {
        input.drop_first()
    } else {
        input
    }
}

/// The seek request that a command argument stands for, or `None` when its time is malformed.
pub open spec fn seek_request_of(input: Seq<char>) -> Option<SeekRequest> {
    match time_value(seek_time_part(input)) {
        Some(v) => Some(
            if !seek_is_relative(input) {
                SeekRequest::To(v as u64)
            } else if input[0] == '-' {
                SeekRequest::Backward(v as u64)
            } else {
                SeekRequest::Forward(v as u64)
            },
        ),
        None => None,
    }
}

/// Reads the argument of the seek command: an optional `+` or `-` (relative to the current
/// position), then a time as `parse_time_to_secs` reads it.
pub fn parse_seek_request(input: &str) -> (r: Option<SeekRequest>)
    requires
        time_fits(seek_time_part(input@)),
    ensures
        r == seek_request_of(input@),
{
    let v = chars_of(input);
    let relative = v.len() > 0 && (v[0] == '+' || v[0] == '-');
    let negative = v.len() > 0 && v[0] == '-';
    let t = if relative {
        let mut t: Vec<char> = Vec::new();
        let mut i: usize = 1;
        while i < v.len()
            invariant
                1 <= i <= v.len(),
                t@ == v@.subrange(1, i as int),
            decreases v.len() - i,
        {
            t.push(v[i]);
            i = i + 1;
            assert(v@.subrange(1, i as int) == v@.subrange(1, (i - 1) as int).push(v@[i - 1]));
        }
        assert(t@ =~= v@.drop_first());
        t
    } else {
        v
    };
    match time_of_chars(&t) {
        Some(secs) => Some(
            if !relative {
                SeekRequest::To(secs)
            } else if negative {
                SeekRequest::Backward(secs)
            } else {
                SeekRequest::Forward(secs)
            },
        ),
        None => None,
    }
}

/// A position of at most `u64::MAX` seconds and nanoseconds below one second.
pub open spec fn valid_position(secs: u64, nanos: u32) -> bool {
    nanos < 1_000_000_000
}

/// The position, as seconds and nanoseconds, that a seek request moves to from the current
/// position. Going back past the start stops at the start.
pub open spec fn seek_target(req: SeekRequest, secs: u64, nanos: u32) -> (int, int) {
    match req {
        SeekRequest::To(t) => (t as int, 0),
        SeekRequest::Forward(t) => (secs + t, nanos as int),
        SeekRequest::Backward(t) => if secs >= t {
            (secs - t, nanos as int)
        } else {
            (0, 0)
        },
    }
}

/// Moving forward overflows the position (and panics) past `u64::MAX` seconds.
pub open spec fn seek_fits(req: SeekRequest, secs: u64) -> bool {
    req matches SeekRequest::Forward(t) ==> secs + t <= u64::MAX
}

/// Computes the position that a seek request moves to from the current position.
pub fn seek_position(req: SeekRequest, secs: u64, nanos: u32) -> (r: (u64, u32))
    requires
        valid_position(secs, nanos),
        seek_fits(req, secs),
    ensures
        (r.0 as int, r.1 as int) == seek_target(req, secs, nanos),
        valid_position(r.0, r.1),
{
    match req {
        SeekRequest::To(t) => (t, 0),
        SeekRequest::Forward(t) => (secs + t, nanos),
        SeekRequest::Backward(t) => if secs >= t {
            (secs - t, nanos)
        } else {
            (0, 0)
        },
    }
}

/// The reply after a seek: the new position as `m:ss`.
pub open spec fn seek_done_text(secs: nat) -> Seq<char> {
    "再生位置を `"@ + dec(secs / 60) + ":"@ + dec2(secs % 60) + "` に変更しました"@
}

/// The reply after a seek to `secs` seconds.
pub fn seek_done_message(secs: u64) -> (r: String)
    ensures
        r@ == seek_done_text(secs as nat),
{
    let mut out = String::new();
    out.append("再生位置を `");
    push_decimal(&mut out, secs / 60);
    out.append(":");
    push_decimal2(&mut out, secs % 60);
    out.append("` に変更しました");
    out
}

} // verus!

verus! {

// ---------------------------------------------------------------------------
// Queue items
// ---------------------------------------------------------------------------

/// A piece of music waiting in, or taken from, a guild's queue.
#[derive(Clone)]
pub struct MusicItem {
    pub url: String,
    pub title: String,
    pub artist: Option<String>,
    pub album: Option<String>,
    pub release_year: Option<u32>,
    /// Length in whole seconds.
    pub duration: Option<u64>,
    pub thumbnail: Option<String>,
    pub albumart: Option<Vec<u8>>,
    /// Played through yt-dlp rather than fetched over HTTP.
    pub is_ytdl: bool,
    /// The member who asked for it, where known.
    pub requested_by: Option<u64>,
}

/// What yt-dlp reports of a video; the length is given in whole seconds.
pub struct YtdlOutput {
    pub title: String,
    pub webpage_url: String,
    pub uploader: Option<String>,
    pub duration: Option<u64>,
    pub thumbnail: Option<String>,
    pub upload_date: Option<String>,
}

/// The view of an optional string.
pub open spec fn opt_view(o: Option<String>) -> Option<Seq<char>> {
    match o {
        Some(s) => Some(s@),
        None => None,
    }
}

/// The year that a date written as `YYYY...` starts with: its first four bytes read as a `u32`.
pub open spec fn release_year_of(date: Option<Seq<char>>) -> Option<u32> {
    match date {
        Some(d) => match byte_prefix(d, 4) {
            Some(y) => parse_u32_spec(y),
            None => None,
        },
        None => None,
    }
}

/// Reads the release year from the start of a date such as `20240131` or `2024-01-31`.
pub fn release_year(date: Option<&str>) -> (r: Option<u32>)
    ensures
        r == release_year_of(match date {
            Some(d) => Some(d@),
            None => None,
        }),
{
    match date {
        Some(d) => {
            let v = chars_of(d);
            match chars_in_first_bytes(&v, 4) {
                Some(y) => {
                    assert(y@.subrange(0, y.len() as int) == y@);
                    match parse_unsigned(&y, 0, y.len(), u32::MAX as u64) {
                        Some(n) => Some(n as u32),
                        None => None,
                    }
                },
                None => None,
            }
        },
        None => None,
    }
}

fn clone_opt(o: &Option<String>) -> (r: Option<String>)
    ensures
        opt_view(r) == opt_view(*o),
{
    match o {
        Some(s) => Some(s.clone()),
        None => None,
    }
}

/// The queue item for a video that yt-dlp described.
pub fn music_item_from_ytdl(info: &YtdlOutput) -> (item: MusicItem)
    ensures
        item.url@ == info.webpage_url@,
        item.title@ == info.title@,
        opt_view(item.artist) == opt_view(info.uploader),
        item.album is None,
        item.release_year == release_year_of(opt_view(info.upload_date)),
        item.duration == info.duration,
        opt_view(item.thumbnail) == opt_view(info.thumbnail),
        item.albumart is None,
        item.is_ytdl,
        item.requested_by is None,
{
    let year = match &info.upload_date {
        Some(d) => release_year(Some(d.as_str())),
        None => release_year(None),
    };
    MusicItem {
        url: info.webpage_url.clone(),
        title: info.title.clone(),
        artist: clone_opt(&info.uploader),
        album: None,
        release_year: year,
        duration: info.duration,
        thumbnail: clone_opt(&info.thumbnail),
        albumart: None,
        is_ytdl: true,
        requested_by: None,
    }
}

/// What is queued for a URL whose details yt-dlp could not give.
pub fn unknown_ytdl_info(url: &str) -> (info: YtdlOutput)
    ensures
        info.title@ == "不明なタイトル"@,
        info.webpage_url@ == url@,
        info.uploader is None,
        info.duration is None,
        info.thumbnail is None,
        info.upload_date is None,
{
    YtdlOutput {
        title: String::from_str("不明なタイトル"),
        webpage_url: String::from_str(url),
        uploader: None,
        duration: None,
        thumbnail: None,
        upload_date: None,
    }
}

/// What is queued for a chosen search result that is no longer among the results.
pub fn fallback_video_item(url: &str) -> (item: MusicItem)
    ensures
        item.url@ == url@,
        item.title@ == "Youtube Video"@,
        item.artist is None,
        item.album is None,
        item.release_year is None,
        item.duration is None,
        item.thumbnail is None,
        item.albumart is None,
        item.is_ytdl,
        item.requested_by is None,
{
    MusicItem {
        url: String::from_str(url),
        title: String::from_str("Youtube Video"),
        artist: None,
        album: None,
        release_year: None,
        duration: None,
        thumbnail: None,
        albumart: None,
        is_ytdl: true,
        requested_by: None,
    }
}

/// The queue item for an attached file, titled by its metadata or else by its file name.
pub fn music_item_from_file(
    url: &str,
    filename: &str,
    title: Option<String>,
    artist: Option<String>,
    album: Option<String>,
    release_year: Option<u32>,
    duration: Option<u64>,
    albumart: Option<Vec<u8>>,
) -> (item: MusicItem)
    ensures
        item.url@ == url@,
        item.title@ == (match title {
            Some(t) => t@,
            None => filename@,
        }),
        opt_view(item.artist) == opt_view(artist),
        opt_view(item.album) == opt_view(album),
        item.release_year == release_year,
        item.duration == duration,
        item.thumbnail is None,
        item.albumart == albumart,
        !item.is_ytdl,
        item.requested_by is None,
{
    let t = match title {
        Some(t) => t,
        None => String::from_str(filename),
    };
    MusicItem {
        url: String::from_str(url),
        title: t,
        artist,
        album,
        release_year,
        duration,
        thumbnail: None,
        albumart,
        is_ytdl: false,
        requested_by: None,
    }
}

/// The description of the "now playing" notice: title, then ` ― artist`, then `（album）`.
pub open spec fn now_playing_text(item: MusicItem) -> Seq<char> {
    let a = match opt_view(item.artist) {
        Some(x) => " ― "@ + x,
        None => Seq::empty(),
    };
    let b = match opt_view(item.album) {
        Some(x) => "（"@ + x + "）"@,
        None => Seq::empty(),
    };
    item.title@ + a + b
}

/// The description of the "added to the queue" notice: title, ` ― artist`, ` / album`,
/// ` (year)`.
pub open spec fn queue_added_text(item: MusicItem) -> Seq<char> {
    let a = match opt_view(item.artist) {
        Some(x) => " ― "@ + x,
        None => Seq::empty(),
    };
    let b = match opt_view(item.album) {
        Some(x) => " / "@ + x,
        None => Seq::empty(),
    };
    let c = match item.release_year {
        Some(y) => " ("@ + dec(y as nat) + ")"@,
        None => Seq::empty(),
    };
    item.title@ + a + b + c
}

/// The description of the notice that a track has started.
pub fn now_playing_description(item: &MusicItem) -> (r: String)
    ensures
        r@ == now_playing_text(*item),
{
    let mut d = item.title.clone();
    if let Some(a) = &item.artist {
        d.append(" ― ");
        d.append(a.as_str());
    }
    if let Some(al) = &item.album {
        d.append("（");
        d.append(al.as_str());
        d.append("）");
    }
    d
}

/// The description of the notice that a track was queued.
pub fn queue_added_description(item: &MusicItem) -> (r: String)
    ensures
        r@ == queue_added_text(*item),
{
    let mut d = item.title.clone();
    if let Some(a) = &item.artist {
        d.append(" ― ");
        d.append(a.as_str());
    }
    if let Some(al) = &item.album {
        d.append(" / ");
        d.append(al.as_str());
    }
    if let Some(y) = item.release_year {
        d.append(" (");
        push_decimal(&mut d, y as u64);
        d.append(")");
    }
    d
}

/// The footer of a notice: the track's length, when it is known.
pub fn duration_footer(item: &MusicItem) -> (r: Option<String>)
    ensures
        match item.duration {
            Some(d) => r matches Some(s) && s@ == duration_text(d as nat),
            None => r is None,
        },
{
    match item.duration {
        Some(d) => Some(format_duration(d)),
        None => None,
    }
}

/// Longest search-result title, in characters, that is shown whole in the selection menu.
pub const MAX_OPTION_LABEL: usize = 95;

/// The label of a search result in the selection menu: titles longer than the limit are cut
/// and end in `...`.
pub open spec fn option_label_text(title: Seq<char>) -> Seq<char> {
    if title.len() > MAX_OPTION_LABEL {
        title.take(MAX_OPTION_LABEL as int) + "..."@
    } else {
        title
    }
}

/// The label of a search result in the selection menu.
pub fn option_label(title: &str) -> (r: String)
    ensures
        r@ == option_label_text(title@),
{
    let v = chars_of(title);
    if v.len() > MAX_OPTION_LABEL {
        let head = take_chars(&v, MAX_OPTION_LABEL);
        let mut s = string_of(&head);
        s.append("...");
        s
    } else {
        String::from_str(title)
    }
}

// ---------------------------------------------------------------------------
// A guild's playback state
// ---------------------------------------------------------------------------

/// The music queue of a guild, the track that plays (a handle of type `H`), and the volume
/// (the bit pattern of an `f32`).
pub struct MusicState<H> {
    pub queue: std::collections::VecDeque<MusicItem>,
    pub current_track: Option<H>,
    /// Who asked for the track that plays, where known.
    pub current_requester: Option<u64>,
    pub volume: u32,
}

impl<H> MusicState<H> {
    /// An empty queue with nothing playing.
    pub fn new(volume: u32) -> (s: Self)
        ensures
            s.queue@.len() == 0,
            s.current_track is None,
            s.current_requester is None,
            s.volume == volume,
    {
        MusicState {
            queue: std::collections::VecDeque::new(),
            current_track: None,
            current_requester: None,
            volume,
        }
    }

    /// Puts an item at the back of the queue; says whether playback has to be started,
    /// which is when nothing plays.
    pub fn enqueue(&mut self, item: MusicItem) -> (should_play: bool)
        ensures
            final(self).queue@ == old(self).queue@.push(item),
            final(self).current_track == old(self).current_track,
            final(self).current_requester == old(self).current_requester,
            final(self).volume == old(self).volume,
            should_play == old(self).current_track is None,
    {
        self.queue.push_back(item);
        self.current_track.is_none()
    }

    /// Puts an item at the back of the queue where music is enabled in the guild, saying
    /// whether playback has to be started; where it is not, refuses (`None`) and changes
    /// nothing.
    pub fn enqueue_if_enabled(&mut self, item: MusicItem, music_enabled: bool) -> (r: Option<bool>)
        ensures
            !music_enabled ==> r is None && *final(self) == *old(self),
            music_enabled ==> r == Some(old(self).current_track is None) && final(self).queue@
                == old(self).queue@.push(item) && final(self).current_track == old(
                self,
            ).current_track && final(self).current_requester == old(self).current_requester
                && final(self).volume == old(self).volume,
    {
        if !music_enabled {
            return None;
        }
        Some(self.enqueue(item))
    }

    /// Takes the item at the front of the queue. When the queue is empty nothing plays any
    /// more, and `None` comes back.
    pub fn advance(&mut self) -> (next: Option<MusicItem>)
        ensures
            old(self).queue@.len() == 0 ==> {
                &&& next is None
                &&& final(self).current_track is None
                &&& final(self).current_requester is None
                &&& final(self).queue@.len() == 0
            },
            old(self).queue@.len() > 0 ==> {
                &&& next == Some(old(self).queue@[0])
                &&& final(self).queue@ == old(self).queue@.drop_first()
                &&& final(self).current_track == old(self).current_track
                &&& final(self).current_requester == old(self).current_requester
            },
            final(self).volume == old(self).volume,
    {
        let next = self.queue.pop_front();
        if next.is_none() {
            self.current_track = None;
            self.current_requester = None;
        }
        next
    }

    /// Records the track that now plays.
    pub fn set_current(&mut self, track: H, requester: Option<u64>)
        ensures
            final(self).current_track == Some(track),
            final(self).current_requester == requester,
            final(self).queue@ == old(self).queue@,
            final(self).volume == old(self).volume,
    {
        self.current_track = Some(track);
        self.current_requester = requester;
    }

    /// Whether `user` may skip the track that plays: anyone may unless skipping others'
    /// tracks is restricted; then only who asked for it (or anyone, where that is not known).
    pub open spec fn may_skip(&self, restrict: bool, user: u64) -> bool {
        !restrict || self.current_requester is None || self.current_requester == Some(user)
    }

    /// Decides the skip command of `user`: nothing plays, the skip is refused (others'
    /// tracks may not be skipped), or the track is stopped; each with its reply.
    pub fn skip_decision(&self, restrict: bool, user: u64) -> (d: SkipDecision)
        ensures
            self.current_track is None ==> (d matches SkipDecision::NotPlaying(m) && m@
                == "再生していません"@),
            self.current_track is Some && !self.may_skip(restrict, user) ==> (
            d matches SkipDecision::Refused(m) && m@ == "他のユーザーの曲はスキップできません。"@),
            self.current_track is Some && self.may_skip(restrict, user) ==> (
            d matches SkipDecision::Skip(m) && m@ == "スキップしました"@),
    {
        if self.current_track.is_none() {
            return SkipDecision::NotPlaying(skip_reply(false));
        }
        let allowed = match self.current_requester {
            Some(r) => !restrict || r == user,
            None => true,
        };
        if allowed {
            SkipDecision::Skip(skip_reply(true))
        } else {
            SkipDecision::Refused(String::from_str("他のユーザーの曲はスキップできません。"))
        }
    }
}

/// Taking items from a queue gives them back in the order in which they were put in.
pub proof fn law_queue_is_first_in_first_out(q: Seq<MusicItem>, x: MusicItem)
    ensures
        q.push(x).drop_first() == (if q.len() > 0 {
            q.drop_first().push(x)
        } else {
            Seq::empty()
        }),
        q.push(x)[0] == (if q.len() > 0 {
            q[0]
        } else {
            x
        }),
{
    if q.len() > 0 {
        assert(q.push(x).drop_first() =~= q.drop_first().push(x));
    } else {
        assert(q.push(x).drop_first() =~= Seq::<MusicItem>::empty());
    }
}

// ---------------------------------------------------------------------------
// Choosing what to play
// ---------------------------------------------------------------------------

/// What the skip command does.
pub enum SkipDecision {
    /// Stop the track that plays, with the reply.
    Skip(String),
    /// Nothing plays: the reply.
    NotPlaying(String),
    /// The member may not skip another member's track: the reply.
    Refused(String),
}

/// The item, marked as asked for by `user`.
pub fn with_requester(item: MusicItem, user: u64) -> (r: MusicItem)
    ensures
        r == (MusicItem { requested_by: Some(user), ..item }),
{
    let mut r = item;
    r.requested_by = Some(user);
    r
}

/// Where the music that a member asks for comes from.
pub enum PlayRequest {
    /// Music is not enabled in the guild: the reply.
    Disabled(String),
    /// The attached file.
    File,
    /// The URL given, played through yt-dlp.
    Url(String),
    /// The words given, searched for on YouTube.
    Search(String),
    /// Nothing was given: the reply asking for something.
    Missing(String),
}

/// Decides where the music that a member asks for comes from: nowhere where music is not
/// enabled in the guild; else an attached file first; else a query that starts with `http`
/// is a URL and any other query is searched for.
pub fn play_request(music_enabled: bool, has_file: bool, query: Option<String>) -> (r: PlayRequest)
    ensures
        !music_enabled ==> (r matches PlayRequest::Disabled(m) && m@
            == "音楽再生機能が無効になっています。"@),
        music_enabled && has_file ==> r is File,
        music_enabled && !has_file ==> match query {
            Some(q) => if occurs_at(q@, "http"@, 0) {
                r matches PlayRequest::Url(u) && u@ == q@
            } else {
                r matches PlayRequest::Search(w) && w@ == q@
            },
            None => r matches PlayRequest::Missing(m) && m@
                == "ファイル、検索ワード、URLのいずれかを指定してください。"@,
        },
{
    if !music_enabled {
        return PlayRequest::Disabled(String::from_str("音楽再生機能が無効になっています。"));
    }
    if has_file {
        return PlayRequest::File;
    }
    match query {
        Some(q) => {
            let v = chars_of(q.as_str());
            let p = chars_of("http");
            let is_url = if p.len() <= v.len() {
                occurs_at_exec(&v, &p, 0)
            } else {
                false
            };
            if is_url {
                PlayRequest::Url(q)
            } else {
                PlayRequest::Search(q)
            }
        },
        None => PlayRequest::Missing(
            String::from_str("ファイル、検索ワード、URLのいずれかを指定してください。"),
        ),
    }
}

/// `item` is the queue item made from what yt-dlp reported in `info`.
pub open spec fn item_of_ytdl(item: MusicItem, info: YtdlOutput) -> bool {
    &&& item.url@ == info.webpage_url@
    &&& item.title@ == info.title@
    &&& opt_view(item.artist) == opt_view(info.uploader)
    &&& item.album is None
    &&& item.release_year == release_year_of(opt_view(info.upload_date))
    &&& item.duration == info.duration
    &&& opt_view(item.thumbnail) == opt_view(info.thumbnail)
    &&& item.albumart is None
    &&& item.is_ytdl
    &&& item.requested_by is None
}

/// The index of the first search result whose URL is `url`.
pub open spec fn first_result_with_url(r: Seq<YtdlOutput>, url: Seq<char>) -> Option<int>
    decreases r.len(),
{
    if r.len() == 0 {
        None
    } else if r[0].webpage_url@ == url {
        Some(0)
    } else {
        match first_result_with_url(r.drop_first(), url) {
            Some(i) => Some(i + 1),
            None => None,
        }
    }
}

proof fn lemma_first_result_in_range(r: Seq<YtdlOutput>, url: Seq<char>)
    ensures
        first_result_with_url(r, url) matches Some(i) ==> 0 <= i < r.len(),
    decreases r.len(),
{
    if r.len() > 0 {
        lemma_first_result_in_range(r.drop_first(), url);
    }
}

/// The queue item for the search result chosen by its URL: made from the first result
/// with that URL, or the stand-in for an unknown video where none has it.
pub fn selected_item(results: &Vec<YtdlOutput>, url: &str) -> (item: MusicItem)
    ensures
        match first_result_with_url(results@, url@) {
            Some(i) => item_of_ytdl(item, results@[i]),
            None => item.url@ == url@ && item.title@ == "Youtube Video"@ && item.artist is None
                && item.album is None && item.release_year is None && item.duration is None
                && item.thumbnail is None && item.albumart is None && item.is_ytdl
                && item.requested_by is None,
        },
{
    let mut i: usize = 0;
    assert(results@.skip(0) =~= results@);
    while i < results.len()
        invariant
            i <= results.len(),
            match first_result_with_url(results@.skip(i as int), url@) {
                Some(k) => first_result_with_url(results@, url@) == Some(k + i),
                None => first_result_with_url(results@, url@) is None,
            },
        decreases results.len() - i,
    {
        assert(results@.skip(i as int)[0] == results@[i as int]);
        assert(results@.skip(i as int).drop_first() =~= results@.skip(i + 1));
        if str_eq(results[i].webpage_url.as_str(), url) {
            return music_item_from_ytdl(&results[i]);
        }
        i = i + 1;
    }
    fallback_video_item(url)
}

/// The heading of the list of search results for `query`.
pub fn search_results_heading(query: &str) -> (r: String)
    ensures
        r@ == "`"@ + query@ + "`の検索結果"@,
{
    let mut s = String::from_str("`");
    s.append(query);
    s.append("`の検索結果");
    s
}

// ---------------------------------------------------------------------------
// Pausing and skipping
// ---------------------------------------------------------------------------

/// How the current track plays.
#[derive(Clone, Copy, PartialEq, Eq, Debug)]
pub enum PlayMode {
    Play,
    Pause,
    /// Stopped, ended, or anything else.
    Other,
}

/// What the pause command does.
pub enum PauseAction {
    /// Pause the track, with the reply.
    Pause(String),
    /// Let the track play again, with the reply.
    Resume(String),
    /// Nothing plays: the reply.
    NotPlaying(String),
}

/// Decides the pause command from how the current track plays (none where nothing plays):
/// a playing track is paused, a paused one resumed.
pub fn pause_toggle(mode: Option<PlayMode>) -> (a: PauseAction)
    ensures
        match mode {
            Some(PlayMode::Play) => a matches PauseAction::Pause(m) && m@ == "音楽を一時停止しました。"@,
            Some(PlayMode::Pause) => a matches PauseAction::Resume(m) && m@ == "音楽を再開しました。"@,
            _ => a matches PauseAction::NotPlaying(m) && m@ == "音楽を再生していません。"@,
        },
{
    match mode {
        Some(PlayMode::Play) => PauseAction::Pause(String::from_str("音楽を一時停止しました。")),
        Some(PlayMode::Pause) => PauseAction::Resume(String::from_str("音楽を再開しました。")),
        _ => PauseAction::NotPlaying(String::from_str("音楽を再生していません。")),
    }
}

/// The reply to the skip command: whether a track was playing (and is stopped).
pub fn skip_reply(playing: bool) -> (r: String)
    ensures
        r@ == (if playing {
            "スキップしました"@
        } else {
            "再生していません"@
        }),
{
    if playing {
        String::from_str("スキップしました")
    } else {
        String::from_str("再生していません")
    }
}

/// The search results offered to choose from: at most the first ten, each as its shortened
/// title and its URL; where there is none, the reply saying so.
pub fn search_options(results: &Vec<YtdlOutput>) -> (r: Result<Vec<(String, String)>, String>)
    ensures
        results@.len() == 0 ==> (r matches Err(m) && m@ == "検索結果が見つかりませんでした"@),
        results@.len() > 0 ==> (r matches Ok(v) && v@.len() == (if results@.len() < 10 {
            results@.len()
        } else {
            10
        }) && forall|j: int|
            0 <= j < v@.len() ==> (#[trigger] v@[j]).0@ == option_label_text(results@[j].title@)
                && v@[j].1@ == results@[j].webpage_url@),
{
    if results.len() == 0 {
        return Err(String::from_str("検索結果が見つかりませんでした"));
    }
    let n = if results.len() < 10 {
        results.len()
    } else {
        10
    };
    let mut v: Vec<(String, String)> = Vec::new();
    let mut i: usize = 0;
    while i < n
        invariant
            i <= n <= results.len(),
            v@.len() == i,
            forall|j: int|
                0 <= j < i ==> (#[trigger] v@[j]).0@ == option_label_text(results@[j].title@)
                    && v@[j].1@ == results@[j].webpage_url@,
        decreases n - i,
    {
        v.push((option_label(results[i].title.as_str()), results[i].webpage_url.clone()));
        i = i + 1;
    }
    Ok(v)
}

/// What the seek command reads from its input.
pub enum SeekInput {
    /// The time does not fit in a `u64` (the arithmetic would overflow).
    TooLarge,
    /// The input is no time: the reply saying so.
    Invalid(String),
    /// The position asked for.
    Request(SeekRequest),
}

/// Reads the input of the seek command: a position, or the reply for an input that is no
/// time, or that its time does not fit in a `u64`.
pub fn read_seek_input(input: &str) -> (r: SeekInput)
    ensures
        !time_fits(seek_time_part(input@)) ==> r is TooLarge,
        time_fits(seek_time_part(input@)) ==> match seek_request_of(input@) {
            Some(q) => r matches SeekInput::Request(x) && x == q,
            None => r matches SeekInput::Invalid(m) && m@
                == "時間の形式が不正です。秒数または「h:m:s」などの形式で入力してください。"@,
        },
{
    if !seek_input_fits(input) {
        return SeekInput::TooLarge;
    }
    match parse_seek_request(input) {
        Some(q) => SeekInput::Request(q),
        None => SeekInput::Invalid(
            String::from_str("時間の形式が不正です。秒数または「h:m:s」などの形式で入力してください。"),
        ),
    }
}

} // verus!
