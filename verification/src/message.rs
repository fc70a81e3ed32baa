use vstd::prelude::*;
use crate::text::{
    chars_of, string_of, extend_chars, extend_str, occurs_at, occurs_at_exec, parse_u64_spec,
    parse_unsigned, replaced, replace_all_chars, push_decimal, dec, str_eq, string_views, joined,
    join_strings, take_chars,
};
use crate::digits::{is_decimal_digit, decimal_digit};
use crate::voice::{name_in, name_table, lookup_name};
use crate::markdown::{sanitized, sanitize_text};
use crate::emoji::{without_emoji, demojize};

verus! {

// ---------------------------------------------------------------------------
// Users and their names
// ---------------------------------------------------------------------------

/// A user as a message refers to it: id, user name, global display name, and the display
/// name of the user as a member of the message's guild (`None` when that is not known).
pub struct UserRef {
    pub id: u64,
    pub name: String,
    pub global_name: Option<String>,
    pub member_display_name: Option<String>,
}

/// The name by which a user is read: the member's display name, or the user name; when that
/// is just the user name, the global name if there is one.
pub open spec fn display_name_of(u: UserRef) -> Seq<char> {
    let d = match u.member_display_name {
        Some(m) => m@,
        None => u.name@,
    };
    if d == u.name@ {
        match u.global_name {
            Some(g) => g@,
            None => d,
        }
    } else {
        d
    }
}

/// The name by which a user is read.
pub fn display_name(u: &UserRef) -> (r: String)
    ensures
        r@ == display_name_of(*u),
{
    let d = match &u.member_display_name {
        Some(m) => m.clone(),
        None => u.name.clone(),
    };
    if str_eq(d.as_str(), u.name.as_str()) {
        match &u.global_name {
            Some(g) => g.clone(),
            None => d,
        }
    } else {
        d
    }
}

// ---------------------------------------------------------------------------
// Mentions of users
// ---------------------------------------------------------------------------

/// The plain mention of a user: `<@id>`.
pub open spec fn user_tag(id: u64) -> Seq<char> {
    "<@"@ + dec(id as nat) + ">"@
}

/// The nickname mention of a user: `<@!id>`.
pub open spec fn nick_tag(id: u64) -> Seq<char> {
    "<@!"@ + dec(id as nat) + ">"@
}

/// The text with each mentioned user's tags, in the order of the mentions, replaced by
/// "あっと" and the user's name.
pub open spec fn with_user_mentions(s: Seq<char>, users: Seq<UserRef>) -> Seq<char>
    decreases users.len(),
{
    if users.len() == 0 {
        s
    } else {
        let u = users[0];
        let r = "あっと"@ + display_name_of(u);
        with_user_mentions(replaced(replaced(s, user_tag(u.id), r), nick_tag(u.id), r), users.drop_first())
    }
}

/// With no user mentioned the text is kept; one mentioned user has both of its tags, `<@id>`
/// and `<@!id>`, replaced by "あっと" and its name.
pub proof fn law_one_user_mention_replaces_both_tags(s: Seq<char>, u: UserRef)
    ensures
        with_user_mentions(s, Seq::<UserRef>::empty()) == s,
        with_user_mentions(s, seq![u]) == replaced(
            replaced(s, "<@"@ + dec(u.id as nat) + ">"@, "あっと"@ + display_name_of(u)),
            "<@!"@ + dec(u.id as nat) + ">"@,
            "あっと"@ + display_name_of(u),
        ),
{
    let r = "あっと"@ + display_name_of(u);
    let t = replaced(replaced(s, user_tag(u.id), r), nick_tag(u.id), r);
    assert(seq![u].drop_first() =~= Seq::<UserRef>::empty());
    assert(with_user_mentions(t, Seq::<UserRef>::empty()) == t);
}

/// Every mentioned user is replaced, each in turn: replacing the mentions of `a` followed by
/// those of `b` is replacing those of `a` and then, in the result, those of `b`.
pub proof fn law_user_mentions_compose(s: Seq<char>, a: Seq<UserRef>, b: Seq<UserRef>)
    ensures
        with_user_mentions(s, a + b) == with_user_mentions(with_user_mentions(s, a), b),
    decreases a.len(),
{
    if a.len() == 0 {
        assert(a + b =~= b);
    } else {
        let u = a[0];
        let r = "あっと"@ + display_name_of(u);
        let t = replaced(replaced(s, user_tag(u.id), r), nick_tag(u.id), r);
        assert((a + b)[0] == u);
        assert((a + b).drop_first() =~= a.drop_first() + b);
        law_user_mentions_compose(t, a.drop_first(), b);
    }
}

fn tag_chars(prefix: &str, id: u64) -> (r: Vec<char>)
    ensures
        r@ == prefix@ + dec(id as nat) + ">"@,
        r.len() > 0,
{
    let mut s = String::from_str(prefix);
    push_decimal(&mut s, id);
    s.append(">");
    let r = chars_of(s.as_str());
    assert(r@.len() > 0) by {
        assert(dec(id as nat).len() > 0) by {
            reveal_with_fuel(dec, 1);
        }
    }
    r
}

fn replace_user_mentions(text: &Vec<char>, users: &Vec<UserRef>) -> (r: Vec<char>)
    ensures
        r@ == with_user_mentions(text@, users@),
{
    let mut t: Vec<char> = Vec::new();
    extend_chars(&mut t, text);
    assert(t@ =~= text@);
    let mut i: usize = 0;
    assert(users@.skip(0) == users@);
    while i < users.len()
        invariant
            i <= users.len(),
            with_user_mentions(text@, users@) == with_user_mentions(t@, users@.skip(i as int)),
        decreases users.len() - i,
    {
        let u = &users[i];
        let mut rep = String::from_str("あっと");
        let name = display_name(u);
        rep.append(name.as_str());
        let rv = chars_of(rep.as_str());
        let p1 = tag_chars("<@", u.id);
        let p2 = tag_chars("<@!", u.id);
        let t1 = replace_all_chars(&t, &p1, &rv);
        let t2 = replace_all_chars(&t1, &p2, &rv);
        assert(users@.skip(i as int)[0] == users@[i as int]);
        assert(users@.skip(i as int).drop_first() =~= users@.skip(i + 1));
        t = t2;
        i = i + 1;
    }
    assert(users@.skip(users.len() as int) =~= Seq::<UserRef>::empty());
    t
}

// ---------------------------------------------------------------------------
// Mentions of roles and channels
// ---------------------------------------------------------------------------

/// The end of the run of decimal digits that starts at `i`.
pub open spec fn digits_end(s: Seq<char>, i: int) -> int
    decreases s.len() - i,
{
    if i < 0 || i >= s.len() || !is_decimal_digit(s[i]) {
        i
    } else {
        digits_end(s, i + 1)
    }
}

pub proof fn lemma_digits_end(s: Seq<char>, i: int)
    requires
        0 <= i <= s.len(),
    ensures
        i <= digits_end(s, i) <= s.len(),
    decreases s.len() - i,
{
    if i < s.len() && is_decimal_digit(s[i]) {
        lemma_digits_end(s, i + 1);
    }
}

/// A mention that starts at `i` with `sigil` (`<@&` for roles, `<#` for channels), then
/// decimal digits, then `>`, as `<@&(\d+)>` or `<#(\d+)>` match it: where its digits end.
pub open spec fn mention_at(s: Seq<char>, sigil: Seq<char>, i: int) -> Option<int> {
    if occurs_at(s, sigil, i) {
        let e = digits_end(s, i + sigil.len());
        if e > i + sigil.len() && e < s.len() && s[e] == '>' {
            Some(e)
        } else {
            None
        }
    } else {
        None
    }
}

/// The id that the digits of a mention are read as; digits that `u64` parsing refuses are
/// read as 0.
pub open spec fn mention_id(d: Seq<char>) -> u64 {
    match parse_u64_spec(d) {
        Some(v) => v,
        None => 0,
    }
}

/// What a mention of the id `id` is read as: for a role "あっと" and its name, or the word
/// for an unknown role; for a channel its name, or the word for an unknown channel.
pub open spec fn mention_reading(role: bool, table: Seq<(u64, Seq<char>)>, id: u64) -> Seq<char> {
    match name_in(table, id) {
        Some(n) => if role {
            "あっと"@ + n
        } else {
            n
        },
        None => if role {
            "不明なロール"@
        } else {
            "不明なチャンネル"@
        },
    }
}

/// `s[i..]` with each mention of the kind replaced by what it is read as.
pub open spec fn replace_mentions(s: Seq<char>, sigil: Seq<char>, role: bool, table: Seq<(u64, Seq<char>)>, i: int) -> Seq<char>
    decreases s.len() - i,
{
    if i < 0 || i >= s.len() {
        Seq::empty()
    } else {
        match mention_at(s, sigil, i) {
            Some(e) => {
                proof {
                    lemma_digits_end(s, i + sigil.len());
                }
                mention_reading(role, table, mention_id(s.subrange(i + sigil.len(), e)))
                    + replace_mentions(s, sigil, role, table, e + 1)
            },
            None => seq![s[i]] + replace_mentions(s, sigil, role, table, i + 1),
        }
    }
}

/// Every mention of the kind in `s[i..]` has digits that read as a non-zero `u64`. A mention
/// of id 0, or one whose digits do not read as a `u64`, stops the bot: an id cannot be 0.
pub open spec fn mentions_valid(s: Seq<char>, sigil: Seq<char>, i: int) -> bool
    decreases s.len() - i,
{
    if i < 0 || i >= s.len() {
        true
    } else {
        match mention_at(s, sigil, i) {
            Some(e) => {
                proof {
                    lemma_digits_end(s, i + sigil.len());
                }
                (parse_u64_spec(s.subrange(i + sigil.len(), e)) matches Some(v) && v != 0)
                    && mentions_valid(s, sigil, e + 1)
            },
            None => mentions_valid(s, sigil, i + 1),
        }
    }
}

fn find_mention(s: &Vec<char>, sigil: &Vec<char>, i: usize) -> (r: Option<usize>)
    requires
        i < s.len(),
    ensures
        match mention_at(s@, sigil@, i as int) {
            Some(e) => r == Some(e as usize) && i + sigil.len() < e < s.len(),
            None => r is None,
        },
{
    if !(sigil.len() <= s.len() - i && occurs_at_exec(s, sigil, i)) {
        return None;
    }
    let start = i + sigil.len();
    let mut e = start;
    while e < s.len() && decimal_digit(s[e])
        invariant
            start <= e <= s.len(),
            digits_end(s@, e as int) == digits_end(s@, start as int),
        decreases s.len() - e,
    {
        e = e + 1;
    }
    if e > start && e < s.len() && s[e] == '>' {
        Some(e)
    } else {
        None
    }
}

/// Replaces each mention of a kind (a role when `role`, else a channel) by what it is read
/// as, looking ids up in `table`.
fn mentions_pass(s: &Vec<char>, sigil: &str, role: bool, table: &Vec<(u64, String)>) -> (r: Vec<char>)
    ensures
        r@ == replace_mentions(s@, sigil@, role, name_table(table@), 0),
{
    let sg = chars_of(sigil);
    let ghost tv = name_table(table@);
    let mut out: Vec<char> = Vec::new();
    let mut i: usize = 0;
    while i < s.len()
        invariant
            i <= s.len(),
            sg@ == sigil@,
            tv == name_table(table@),
            out@ + replace_mentions(s@, sigil@, role, tv, i as int) == replace_mentions(s@, sigil@, role, tv, 0),
        decreases s.len() - i,
    {
        let ghost before = out@;
        match find_mention(s, &sg, i) {
            Some(e) => {
                let start = i + sg.len();
                let id = match parse_unsigned(s, start, e, u64::MAX) {
                    Some(v) => v,
                    None => 0,
                };
                let rep = match lookup_name(table, id) {
                    Some(n) => {
                        if role {
                            let mut x = String::from_str("あっと");
                            x.append(n.as_str());
                            x
                        } else {
                            n
                        }
                    },
                    None => {
                        if role {
                            String::from_str("不明なロール")
                        } else {
                            String::from_str("不明なチャンネル")
                        }
                    },
                };
                extend_str(&mut out, rep.as_str());
                assert(out@ + replace_mentions(s@, sigil@, role, tv, e + 1) =~= before
                    + replace_mentions(s@, sigil@, role, tv, i as int));
                i = e + 1;
            },
            None => {
                out.push(s[i]);
                assert(out@ + replace_mentions(s@, sigil@, role, tv, i + 1) =~= before
                    + replace_mentions(s@, sigil@, role, tv, i as int));
                i = i + 1;
            },
        }
    }
    assert(out@ + Seq::<char>::empty() == out@);
    out
}

// ---------------------------------------------------------------------------
// Custom emoji (regex)
// ---------------------------------------------------------------------------

/// The text that `regex::Regex::new(pattern)` followed by `Regex::replace_all(text,
/// replacement)` gives, or `None` when the pattern does not compile.
pub uninterp spec fn regex_replaced(pattern: Seq<char>, text: Seq<char>, replacement: Seq<char>) -> Option<Seq<char>>;

/// Compiles `pattern` with `regex::Regex::new` and replaces every match in `text` with
/// `Regex::replace_all` (`$n` in the replacement stands for group `n`). The result is named by
/// `regex_replaced`; `None` when the pattern does not compile.
#[verifier::external_body]
fn regex_replace_all(pattern: &str, text: &str, replacement: &str) -> (r: Option<String>)
    ensures
        match r {
            Some(s) => regex_replaced(pattern@, text@, replacement@) == Some(s@),
            None => regex_replaced(pattern@, text@, replacement@) is None,
        },
{
    match regex::Regex::new(pattern) {
        Ok(re) => Some(re.replace_all(text, replacement).into_owned()),
        Err(_) => None,
    }
}

/// A custom emoji `<:name:id>` or `<a:name:id>` is read by its name.
pub open spec fn with_custom_emoji_names(s: Seq<char>) -> Seq<char> {
    match regex_replaced("<a?:(\\w+):\\d+>"@, s, "$1"@) {
        Some(t) => t,
        None => s,
    }
}

fn custom_emoji_names(s: &str) -> (r: String)
    ensures
        r@ == with_custom_emoji_names(s@),
{
    match regex_replace_all("<a?:(\\w+):\\d+>", s, "$1") {
        Some(t) => t,
        None => String::from_str(s),
    }
}

// ---------------------------------------------------------------------------
// Attachments
// ---------------------------------------------------------------------------

/// What an attachment is read as, by the part of its content type before the first `/`.
pub open spec fn attachment_reading(content_type: Option<Seq<char>>) -> Seq<char> {
    match content_type {
        Some(ct) => {
            let parts = crate::text::split_on(ct, '/');
            if parts.len() >= 2 && parts[0] == "image"@ {
                "画像ファイル"@
            } else if parts.len() >= 2 && parts[0] == "video"@ {
                "動画ファイル"@
            } else if parts.len() >= 2 && parts[0] == "audio"@ {
                "音声ファイル"@
            } else {
                "添付ファイル"@
            }
        },
        None => "添付ファイル"@,
    }
}

/// What an attachment with the given content type is read as.
pub fn describe_attachment(content_type: Option<&str>) -> (r: String)
    ensures
        r@ == attachment_reading(match content_type {
            Some(c) => Some(c@),
            None => None,
        }),
{
    match content_type {
        Some(ct) => {
            let v = chars_of(ct);
            let parts = crate::text::split_chars(&v, '/');
            proof {
                assert(parts@.map_values(|p: Vec<char>| p@).len() == parts.len());
            }
            if parts.len() >= 2 {
                assert(parts@.map_values(|p: Vec<char>| p@)[0] == parts[0]@);
                let first = string_of(&parts[0]);
                if str_eq(first.as_str(), "image") {
                    return String::from_str("画像ファイル");
                } else if str_eq(first.as_str(), "video") {
                    return String::from_str("動画ファイル");
                } else if str_eq(first.as_str(), "audio") {
                    return String::from_str("音声ファイル");
                }
            }
            String::from_str("添付ファイル")
        },
        None => String::from_str("添付ファイル"),
    }
}

// ---------------------------------------------------------------------------
// Whole messages
// ---------------------------------------------------------------------------

/// A message as far as reading it aloud needs: its text, its author, the message it replies
/// to, whether it forwards another, the users it mentions, whether its guild is known (in
/// the cache), the roles and channels of its guild by id (empty when the guild is not
/// known), and its stickers and attachments.
pub struct MessageInfo {
    pub content: String,
    pub guild_cached: bool,
    pub author: UserRef,
    pub referenced: Option<Box<MessageInfo>>,
    pub forwarded: bool,
    pub mentions: Vec<UserRef>,
    pub roles: Vec<(u64, String)>,
    pub channels: Vec<(u64, String)>,
    pub sticker_names: Vec<String>,
    pub attachment_types: Vec<Option<String>>,
}

/// The text after user mentions are replaced.
pub open spec fn after_users(m: MessageInfo) -> Seq<char> {
    with_user_mentions(m.content@, m.mentions@)
}

/// The text after role mentions are replaced as well.
/// Role mentions are looked up only in a known guild; otherwise every one is an unknown role.
pub open spec fn after_roles(m: MessageInfo) -> Seq<char> {
    replace_mentions(after_users(m), "<@&"@, true, role_table(m), 0)
}

/// The roles by id that role mentions are looked up in: none when the guild is not known.
pub open spec fn role_table(m: MessageInfo) -> Seq<(u64, Seq<char>)> {
    if m.guild_cached {
        name_table(m.roles@)
    } else {
        Seq::empty()
    }
}

/// The text after channel mentions are replaced as well.
pub open spec fn after_channels(m: MessageInfo) -> Seq<char> {
    replace_mentions(after_roles(m), "<#"@, false, name_table(m.channels@), 0)
}

/// The readings of a message's attachments.
pub open spec fn attachment_readings(types: Seq<Option<String>>) -> Seq<Seq<char>> {
    types.map_values(
        |c: Option<String>|
            attachment_reading(
                match c {
                    Some(x) => Some(x@),
                    None => None,
                },
            ),
    )
}

/// The text of a message as it is read, without the reply prefix: mentions, custom emoji and
/// emoji replaced, then the names of its stickers and the kinds of its attachments.
pub open spec fn body_text(m: MessageInfo) -> Seq<char> {
    let t5 = without_emoji(with_custom_emoji_names(after_channels(m)));
    let t6 = if m.sticker_names.len() > 0 {
        t5 + " "@ + joined(string_views(m.sticker_names@), " "@)
    } else {
        t5
    };
    if m.attachment_types.len() > 0 {
        (if t6.len() > 0 {
            t6 + " "@
        } else {
            t6
        }) + joined(attachment_readings(m.attachment_types@), " "@)
    } else {
        t6
    }
}

/// The prefix read before a reply, in the form `t`, given the replied-to author's name and
/// the replied-to message as it is read.
pub open spec fn reply_prefix_text(t: i32, name: Seq<char>, quoted: Seq<char>) -> Seq<char> {
    if t == 0 {
        Seq::empty()
    } else if t == 1 {
        "返信 "@
    } else if t == 2 {
        name + "への返信 "@
    } else if t == 3 {
        let clean = sanitized(quoted);
        let preview = clean.take(if clean.len() < 20 { clean.len() as int } else { 20 });
        if preview.len() == 0 {
            name + "への返信 "@
        } else {
            name + "の「"@ + preview + "」への返信 "@
        }
    } else {
        name + "への返信"@
    }
}

/// A message as it is read aloud, with replies introduced in the form `t`.
pub open spec fn formatted(m: MessageInfo, t: i32) -> Seq<char>
    decreases m,
{
    let reply = match m.referenced {
        Some(r) => reply_prefix_text(
            t,
            display_name_of(r.author),
            if t == 3 {
                formatted(*r, 0)
            } else {
                Seq::empty()
            },
        ),
        None => Seq::empty(),
    };
    let fwd = if m.forwarded {
        "転送"@
    } else {
        Seq::empty()
    };
    reply + fwd + body_text(m)
}

/// Every channel mention of the message, and in a known guild every role mention (and, when
/// replies are quoted, the same of the quoted message), names a valid id; the bot stops on
/// any other.
pub open spec fn formats_valid(m: MessageInfo, t: i32) -> bool
    decreases m,
{
    &&& (m.guild_cached ==> mentions_valid(after_users(m), "<@&"@, 0))
    &&& mentions_valid(after_roles(m), "<#"@, 0)
    &&& (t == 3 ==> match m.referenced {
        Some(r) => formats_valid(*r, 0),
        None => true,
    })
}

fn body(m: &MessageInfo) -> (r: String)
    requires
        mentions_valid(after_roles(*m), "<#"@, 0),
    ensures
        r@ == body_text(*m),
{
    let content = chars_of(m.content.as_str());
    let t1 = replace_user_mentions(&content, &m.mentions);
    let no_roles: Vec<(u64, String)> = Vec::new();
    assert(name_table(no_roles@) =~= Seq::<(u64, Seq<char>)>::empty());
    let t2 = if m.guild_cached {
        mentions_pass(&t1, "<@&", true, &m.roles)
    } else {
        mentions_pass(&t1, "<@&", true, &no_roles)
    };
    let t3 = mentions_pass(&t2, "<#", false, &m.channels);
    let s3 = string_of(&t3);
    let s4 = custom_emoji_names(s3.as_str());
    let mut text = demojize(s4.as_str());
    if m.sticker_names.len() > 0 {
        text.append(" ");
        let names = join_strings(&m.sticker_names, " ");
        text.append(names.as_str());
    }
    if m.attachment_types.len() > 0 {
        let mut descs: Vec<String> = Vec::new();
        let mut i: usize = 0;
        while i < m.attachment_types.len()
            invariant
                i <= m.attachment_types.len(),
                string_views(descs@) == attachment_readings(m.attachment_types@.take(i as int)),
            decreases m.attachment_types.len() - i,
        {
            let d = match &m.attachment_types[i] {
                Some(c) => describe_attachment(Some(c.as_str())),
                None => describe_attachment(None),
            };
            let ghost before = descs@;
            descs.push(d);
            assert(string_views(descs@) =~= string_views(before).push(d@));
            assert(attachment_readings(m.attachment_types@.take(i + 1)) =~= attachment_readings(
                m.attachment_types@.take(i as int),
            ).push(d@));
            i = i + 1;
        }
        assert(m.attachment_types@.take(m.attachment_types.len() as int) =~= m.attachment_types@);
        let all = join_strings(&descs, " ");
        if !text.as_str().is_empty() {
            text.append(" ");
        }
        text.append(all.as_str());
    }
    text
}

fn reply_prefix(t: i32, name: &str, quoted: &str) -> (r: String)
    ensures
        r@ == reply_prefix_text(t, name@, quoted@),
{
    if t == 0 {
        String::new()
    } else if t == 1 {
        String::from_str("返信 ")
    } else if t == 2 {
        let mut s = String::from_str(name);
        s.append("への返信 ");
        s
    } else if t == 3 {
        let clean = sanitize_text(quoted);
        let cv = chars_of(clean.as_str());
        let pv = take_chars(&cv, 20);
        let mut s = String::from_str(name);
        if pv.len() == 0 {
            s.append("への返信 ");
        } else {
            s.append("の「");
            let p = string_of(&pv);
            s.append(p.as_str());
            s.append("」への返信 ");
        }
        s
    } else {
        let mut s = String::from_str(name);
        s.append("への返信");
        s
    }
}

/// Turns a message into the text that is read aloud: a prefix for a reply (in the form
/// `reply_prefix_type`) and for a forward, mentions of users, roles and channels as names,
/// custom emoji and emoji as names, then the names of stickers and the kinds of attachments.
pub fn format_message(m: &MessageInfo, reply_prefix_type: i32) -> (r: String)
    requires
        formats_valid(*m, reply_prefix_type),
    ensures
        r@ == formatted(*m, reply_prefix_type),
    decreases m,
{
    let mut out = match &m.referenced {
        Some(r) => {
            let name = display_name(&r.author);
            let quoted = if reply_prefix_type == 3 {
                format_message(&**r, 0)
            } else {
                String::new()
            };
            reply_prefix(reply_prefix_type, name.as_str(), quoted.as_str())
        },
        None => String::new(),
    };
    if m.forwarded {
        out.append("転送");
    }
    let b = body(m);
    out.append(b.as_str());
    out
}

fn mentions_ok(s: &Vec<char>, sigil: &str) -> (b: bool)
    ensures
        b == mentions_valid(s@, sigil@, 0),
{
    let sg = chars_of(sigil);
    let mut i: usize = 0;
    while i < s.len()
        invariant
            i <= s.len(),
            sg@ == sigil@,
            mentions_valid(s@, sigil@, 0) == mentions_valid(s@, sigil@, i as int),
        decreases s.len() - i,
    {
        match find_mention(s, &sg, i) {
            Some(e) => {
                let start = i + sg.len();
                match parse_unsigned(s, start, e, u64::MAX) {
                    Some(v) => {
                        if v == 0 {
                            return false;
                        }
                    },
                    None => {
                        return false;
                    },
                }
                i = e + 1;
            },
            None => {
                i = i + 1;
            },
        }
    }
    true
}

/// Whether every channel mention of the message, and in a known guild every role mention
/// (and, where replies are quoted in the form `t`, the same of the quoted message), names
/// an id that the bot can look up, as `format_message` needs.
pub fn formats_ok(m: &MessageInfo, t: i32) -> (b: bool)
    ensures
        b == formats_valid(*m, t),
    decreases m,
{
    let content = chars_of(m.content.as_str());
    let t1 = replace_user_mentions(&content, &m.mentions);
    if m.guild_cached && !mentions_ok(&t1, "<@&") {
        return false;
    }
    let no_roles: Vec<(u64, String)> = Vec::new();
    assert(name_table(no_roles@) =~= Seq::<(u64, Seq<char>)>::empty());
    let t2 = if m.guild_cached {
        mentions_pass(&t1, "<@&", true, &m.roles)
    } else {
        mentions_pass(&t1, "<@&", true, &no_roles)
    };
    if !mentions_ok(&t2, "<#") {
        return false;
    }
    if t == 3 {
        match &m.referenced {
            Some(r) => formats_ok(&**r, 0),
            None => true,
        }
    } else {
        true
    }
}

/// A message as it is read aloud, where every mention names an id that can be looked up;
/// `None` for a message that `format_message` cannot take.
pub fn format_message_checked(m: &MessageInfo, reply_prefix_type: i32) -> (r: Option<String>)
    ensures
        match r {
            Some(s) => formats_valid(*m, reply_prefix_type) && s@ == formatted(*m, reply_prefix_type),
            None => !formats_valid(*m, reply_prefix_type),
        },
{
    if formats_ok(m, reply_prefix_type) {
        Some(format_message(m, reply_prefix_type))
    } else {
        None
    }
}

// ---------------------------------------------------------------------------
// Embeds
// ---------------------------------------------------------------------------

/// The readable parts of an embed: author, title, fields (name, value), footer, and
/// timestamp (seconds since the epoch).
pub struct EmbedInfo {
    pub author_name: Option<String>,
    pub title: Option<String>,
    pub fields: Vec<(String, String)>,
    pub footer: Option<String>,
    pub timestamp: Option<i64>,
}

/// A part that is kept only when it is not empty.
pub open spec fn if_nonempty(t: Seq<char>) -> Seq<Seq<char>> {
    if t.len() > 0 {
        seq![t]
    } else {
        Seq::empty()
    }
}

/// The optional text, cleaned of markup, kept when not empty.
pub open spec fn optional_part(t: Option<String>) -> Seq<Seq<char>> {
    match t {
        Some(x) => if_nonempty(sanitized(x@)),
        None => Seq::empty(),
    }
}

/// A field as it is read: name and value (each cleaned of markup), whichever is not empty.
pub open spec fn field_parts(f: (String, String)) -> Seq<Seq<char>> {
    let n = sanitized(f.0@);
    let v = sanitized(f.1@);
    if n.len() > 0 && v.len() > 0 {
        seq![n + " "@ + v]
    } else if n.len() > 0 {
        seq![n]
    } else if v.len() > 0 {
        seq![v]
    } else {
        Seq::empty()
    }
}

/// The parts of the fields, in order.
pub open spec fn fields_parts(fs: Seq<(String, String)>) -> Seq<Seq<char>>
    decreases fs.len(),
{
    if fs.len() == 0 {
        Seq::empty()
    } else {
        fields_parts(fs.drop_last()) + field_parts(fs.last())
    }
}

/// The parts of an embed that are read, in order.
pub open spec fn embed_parts(e: EmbedInfo) -> Seq<Seq<char>> {
    optional_part(e.author_name) + optional_part(e.title) + fields_parts(e.fields@) + optional_part(
        e.footer,
    ) + match e.timestamp {
        Some(t) => seq![crate::text::dec_signed(t as int)],
        None => Seq::empty(),
    }
}

/// An embed as it is read: its parts separated by spaces.
pub open spec fn embed_text(e: EmbedInfo) -> Seq<char> {
    joined(embed_parts(e), " "@)
}

fn push_optional(parts: &mut Vec<String>, t: &Option<String>)
    ensures
        string_views(final(parts)@) == string_views(old(parts)@) + optional_part(*t),
{
    match t {
        Some(x) => {
            let c = sanitize_text(x.as_str());
            if !c.as_str().is_empty() {
                let ghost before = parts@;
                parts.push(c);
                assert(string_views(parts@) =~= string_views(before) + seq![c@]);
            } else {
                assert(string_views(parts@) + Seq::<Seq<char>>::empty() =~= string_views(parts@));
            }
        },
        None => {
            assert(string_views(parts@) + Seq::<Seq<char>>::empty() =~= string_views(parts@));
        },
    }
}

/// Turns an embed into the text that is read: author, title, fields, footer and timestamp,
/// each cleaned of markup, the empty ones left out, separated by spaces.
pub fn embed_to_text(e: &EmbedInfo) -> (r: String)
    ensures
        r@ == embed_text(*e),
{
    let mut parts: Vec<String> = Vec::new();
    assert(string_views(parts@) =~= Seq::<Seq<char>>::empty());
    push_optional(&mut parts, &e.author_name);
    push_optional(&mut parts, &e.title);
    let ghost head = string_views(parts@);
    let mut i: usize = 0;
    while i < e.fields.len()
        invariant
            i <= e.fields.len(),
            string_views(parts@) == head + fields_parts(e.fields@.take(i as int)),
        decreases e.fields.len() - i,
    {
        let n = sanitize_text(e.fields[i].0.as_str());
        let v = sanitize_text(e.fields[i].1.as_str());
        let ghost before = string_views(parts@);
        assert(e.fields@.take(i + 1).drop_last() =~= e.fields@.take(i as int));
        assert(e.fields@.take(i + 1).last() == e.fields@[i as int]);
        if !n.as_str().is_empty() && !v.as_str().is_empty() {
            let mut both = n;
            both.append(" ");
            both.append(v.as_str());
            parts.push(both);
        } else if !n.as_str().is_empty() {
            parts.push(n);
        } else if !v.as_str().is_empty() {
            parts.push(v);
        }
        assert(string_views(parts@) =~= before + field_parts(e.fields@[i as int]));
        i = i + 1;
    }
    assert(e.fields@.take(e.fields.len() as int) =~= e.fields@);
    push_optional(&mut parts, &e.footer);
    if let Some(t) = e.timestamp {
        let mut ts = String::new();
        crate::text::push_signed_decimal(&mut ts, t);
        let ghost before = string_views(parts@);
        parts.push(ts);
        assert(string_views(parts@) =~= before + seq![ts@]);
    } else {
        assert(string_views(parts@) + Seq::<Seq<char>>::empty() =~= string_views(parts@));
    }
    assert(string_views(parts@) =~= embed_parts(*e));
    join_strings(&parts, " ")
}

// ---------------------------------------------------------------------------
// Deciding about a message, and the text that is read
// ---------------------------------------------------------------------------

/// What is done with a message posted in a guild.
#[derive(Clone, Copy, PartialEq, Eq, Debug)]
pub enum MessageAction {
    /// The message is not read.
    Ignore,
    /// The message is the skip command `s`: the playing utterance is skipped.
    SkipTrack,
    /// The message is read aloud.
    Read,
}

/// What is known of a message and its author when it arrives.
#[derive(Clone, Copy, PartialEq, Eq, Debug)]
pub struct MessageFacts {
    /// The message was posted in a guild.
    pub in_guild: bool,
    /// Its channel is read aloud through some connection.
    pub is_reading_target: bool,
    pub author_is_bot: bool,
    /// The author is a bot on the guild's whitelist.
    pub whitelisted: bool,
    /// The message was sent without notifications (`@silent`).
    pub is_silent: bool,
    /// The author is in a voice channel of the guild.
    pub author_in_vc: bool,
    /// The author is muted by the server.
    pub author_server_muted: bool,
    /// The message mentions the bot.
    pub bot_mentioned: bool,
}

/// The guild's settings that decide whether a message is read.
pub open spec fn message_action_of(f: MessageFacts, read_silent: bool, read_non_vc_user: bool, read_server_muted: bool, read_only_mentioned: bool, content: Seq<char>) -> MessageAction {
    if !f.in_guild || !f.is_reading_target {
        MessageAction::Ignore
    } else if f.author_is_bot && !f.whitelisted {
        MessageAction::Ignore
    } else if !read_silent && f.is_silent {
        MessageAction::Ignore
    } else if !read_non_vc_user && !f.author_in_vc {
        MessageAction::Ignore
    } else if !read_server_muted && f.author_server_muted {
        MessageAction::Ignore
    } else if content == "s"@ {
        MessageAction::SkipTrack
    } else if read_only_mentioned && !f.bot_mentioned {
        MessageAction::Ignore
    } else {
        MessageAction::Read
    }
}

/// Decides what is done with a message: messages outside the channels that are read, from
/// bots that are not whitelisted, and (as the guild's settings say) silent messages,
/// and messages of members outside voice or muted by the server are not read; then `s`
/// skips; any other message that does not mention the bot, where only those are read, is
/// not read.
pub fn message_action(f: MessageFacts, settings: &crate::settings::GuildSettings, content: &str) -> (a: MessageAction)
    ensures
        a == message_action_of(
            f,
            settings.read_silent,
            settings.read_non_vc_user,
            settings.read_server_muted,
            settings.read_only_mentioned,
            content@,
        ),
{
    if !f.in_guild || !f.is_reading_target {
        MessageAction::Ignore
    } else if f.author_is_bot && !f.whitelisted {
        MessageAction::Ignore
    } else if !settings.read_silent && f.is_silent {
        MessageAction::Ignore
    } else if !settings.read_non_vc_user && !f.author_in_vc {
        MessageAction::Ignore
    } else if !settings.read_server_muted && f.author_server_muted {
        MessageAction::Ignore
    } else if str_eq(content, "s") {
        MessageAction::SkipTrack
    } else if settings.read_only_mentioned && !f.bot_mentioned {
        MessageAction::Ignore
    } else {
        MessageAction::Read
    }
}

/// A formatted message with spoilers revealed (when the guild reads them) and the markup
/// replaced.
pub open spec fn cleaned_text(formatted: Seq<char>, read_spoiler: bool) -> Seq<char> {
    sanitized(
        if read_spoiler {
            crate::markdown::replace_spoilers(formatted, 0, true)
        } else {
            formatted
        },
    )
}

/// Reveals spoilers (when the guild reads them) and replaces the markup of a formatted
/// message.
pub fn clean_text(formatted: &str, read_spoiler: bool) -> (r: String)
    ensures
        r@ == cleaned_text(formatted@, read_spoiler),
{
    if read_spoiler {
        let revealed = crate::markdown::reveal_spoilers(formatted);
        sanitize_text(revealed.as_str())
    } else {
        sanitize_text(formatted)
    }
}

/// The non-empty texts, in order.
pub open spec fn nonempty_texts(ts: Seq<Seq<char>>) -> Seq<Seq<char>>
    decreases ts.len(),
{
    if ts.len() == 0 {
        Seq::empty()
    } else {
        nonempty_texts(ts.drop_last()) + if_nonempty(ts.last())
    }
}

/// The text with the texts of the embeds (the non-empty ones, separated by spaces) after it.
pub open spec fn with_embed_texts(text: Seq<char>, embeds: Seq<Seq<char>>) -> Seq<char> {
    let e = joined(nonempty_texts(embeds), " "@);
    if e.len() > 0 {
        if text.len() == 0 {
            e
        } else {
            text + " "@ + e
        }
    } else {
        text
    }
}

/// Adds the texts of a message's embeds after its text.
pub fn add_embed_texts(text: String, embed_texts: &Vec<String>) -> (r: String)
    ensures
        r@ == with_embed_texts(text@, string_views(embed_texts@)),
{
    let mut kept: Vec<String> = Vec::new();
    let mut i: usize = 0;
    while i < embed_texts.len()
        invariant
            i <= embed_texts.len(),
            string_views(kept@) == nonempty_texts(string_views(embed_texts@).take(i as int)),
        decreases embed_texts.len() - i,
    {
        let ghost before = string_views(kept@);
        assert(string_views(embed_texts@).take(i + 1).drop_last() =~= string_views(embed_texts@).take(i as int));
        assert(string_views(embed_texts@).take(i + 1).last() == embed_texts@[i as int]@);
        if !embed_texts[i].as_str().is_empty() {
            kept.push(embed_texts[i].clone());
            assert(string_views(kept@) =~= before + seq![embed_texts@[i as int]@]);
        } else {
            assert(string_views(kept@) =~= before + Seq::<Seq<char>>::empty());
        }
        i = i + 1;
    }
    assert(string_views(embed_texts@).take(embed_texts.len() as int) =~= string_views(embed_texts@));
    let e = join_strings(&kept, " ");
    if !e.as_str().is_empty() {
        if text.as_str().is_empty() {
            e
        } else {
            let mut t = text;
            t.append(" ");
            t.append(e.as_str());
            t
        }
    } else {
        text
    }
}

/// The text prefixed by whose message it is, when it is not empty.
pub open spec fn with_author_text(text: Seq<char>, name: Seq<char>) -> Seq<char> {
    if text.len() > 0 {
        name + "のメッセージ "@ + text
    } else {
        text
    }
}

/// Prefixes a non-empty text with the name of the message's author.
pub fn add_author_name(text: String, name: &str) -> (r: String)
    ensures
        r@ == with_author_text(text@, name@),
{
    if text.as_str().is_empty() {
        text
    } else {
        let mut s = String::from_str(name);
        s.append("のメッセージ ");
        s.append(text.as_str());
        s
    }
}

/// What is spoken for a message: its text, then the texts of its embeds where the guild
/// reads embeds, all prefixed by the author's name where the guild reads names.
pub open spec fn spoken_text_of(text: Seq<char>, read_embed: bool, embeds: Seq<Seq<char>>, read_username: bool, name: Seq<char>) -> Seq<char> {
    let t = if read_embed {
        with_embed_texts(text, embeds)
    } else {
        text
    };
    if read_username {
        with_author_text(t, name)
    } else {
        t
    }
}

/// The text spoken for a message, as the guild's settings say (embed texts after it, the
/// author's name before it); `None` when nothing is left to speak.
pub fn spoken_text(text: String, settings: &crate::settings::GuildSettings, embed_texts: &Vec<String>, author_name: &str) -> (r: Option<String>)
    ensures
        ({
            let t = spoken_text_of(
                text@,
                settings.read_embed,
                string_views(embed_texts@),
                settings.read_username,
                author_name@,
            );
            match r {
                Some(s) => s@ == t && t.len() > 0,
                None => t.len() == 0,
            }
        }),
{
    let mut t = text;
    if settings.read_embed {
        t = add_embed_texts(t, embed_texts);
    }
    if settings.read_username {
        t = add_author_name(t, author_name);
    }
    if t.as_str().is_empty() {
        None
    } else {
        Some(t)
    }
}

} // verus!
