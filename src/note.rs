//! Turning one streamed frame into at most one display record.
//!
//! A note's custom emoji come from its own name-to-URL map, from its repost's
//! map, and from lookups of the `:shortcode:` references in its text that
//! neither map resolves. The lookups are planned here (`emoji_lookups`), made
//! by the caller, and their results handed to `normalize_frame` in plan order.

use vstd::prelude::*;
use vstd::string::*;
use crate::config::Account;
use crate::text::{
    copy_opt, detect_url, first_url, opt_view, scan_shortcodes, shortcodes, string_views,
    truncate_chars, truncated,
};

verus! {

broadcast use vstd::string::group_string_axioms;

/// A custom emoji: its shortcode name and the URL of its image.
#[derive(Debug, Clone)]
pub struct EmojiInfo {
    pub name: String,
    pub url: String,
}

impl View for EmojiInfo {
    type V = (Seq<char>, Seq<char>);

    open spec fn view(&self) -> (Seq<char>, Seq<char>) {
        (self.name@, self.url@)
    }
}

impl EmojiInfo {
    fn copy(&self) -> (r: EmojiInfo)
        ensures
            r@ == self@,
    {
        EmojiInfo { name: self.name.clone(), url: self.url.clone() }
    }
}

/// The author of a note, as the stream gives it.
#[derive(Debug, Clone)]
pub struct RawUser {
    pub name: Option<String>,
    pub username: Option<String>,
    pub host: Option<String>,
}

/// A note as the stream gives it: the fields that a record is made of.
#[derive(Debug)]
pub struct RawNote {
    pub user: Option<RawUser>,
    pub text: Option<String>,
    pub cw: Option<String>,
    /// The note's own emoji map, in the order the stream lists it.
    pub emojis: Vec<EmojiInfo>,
    /// The reposted note, where this one reposts another.
    pub renote: Option<Box<RawNote>>,
}

/// One inbound frame of the stream: the type of its body and the note it
/// carries, where it carries one.
#[derive(Debug)]
pub struct StreamFrame {
    pub body_type: Option<String>,
    pub note: Option<RawNote>,
}

/// Where a repost came from, and the text it shows.
#[derive(Debug, Clone)]
pub struct RenoteInfo {
    pub name: String,
    pub username: String,
    pub host: String,
    pub text: String,
}

/// What a link in a record points to, for its preview.
#[derive(Debug, Clone)]
pub struct UrlPreview {
    pub url: String,
    pub title: String,
    pub description: Option<String>,
    pub image_url: Option<String>,
    pub site_name: Option<String>,
    pub favicon_url: Option<String>,
}

/// A display record: one accepted note, ready to be shown.
#[derive(Debug, Clone)]
pub struct Comment {
    pub text: String,
    pub name: String,
    pub username: String,
    pub user_host: Option<String>,
    pub renote_info: Option<RenoteInfo>,
    pub emojis: Vec<EmojiInfo>,
    /// The first bare URL of the shown text, whose preview may be fetched.
    pub link: Option<String>,
    pub url_preview: Option<UrlPreview>,
    pub account_color: [u8; 3],
    pub account_name: String,
}

// ---------------------------------------------------------------------------
// The model
// ---------------------------------------------------------------------------

pub open spec fn unknown() -> Seq<char> {
    seq!['U', 'n', 'k', 'n', 'o', 'w', 'n']
}

pub open spec fn cw_marker() -> Seq<char> {
    seq!['C', 'W', ':', ' ']
}

pub open spec fn note_type() -> Seq<char> {
    seq!['n', 'o', 't', 'e']
}

/// A field of the author, or "Unknown" where it is missing.
pub open spec fn user_field(
    user: Option<RawUser>,
    pick: spec_fn(RawUser) -> Option<String>,
) -> Seq<char> {
    match user {
        Some(u) => match pick(u) {
            Some(s) => s@,
            None => unknown(),
        },
        None => unknown(),
    }
}

pub open spec fn author_name(n: RawNote) -> Seq<char> {
    user_field(n.user, |u: RawUser| u.name)
}

pub open spec fn author_username(n: RawNote) -> Seq<char> {
    user_field(n.user, |u: RawUser| u.username)
}

pub open spec fn author_host(n: RawNote) -> Option<Seq<char>> {
    match n.user {
        Some(u) => opt_view(u.host),
        None => None,
    }
}

/// The content warning, marked "CW: ", where the note has a non-empty one;
/// else its text, or nothing.
pub open spec fn cw_or_text(n: RawNote) -> Seq<char> {
    match n.cw {
        Some(c) if c@.len() > 0 => cw_marker() + c@,
        _ => match n.text {
            Some(t) => t@,
            None => Seq::empty(),
        },
    }
}

/// The text shown for a reposted note: at most 80 characters.
pub open spec fn renote_body(r: RawNote) -> Seq<char> {
    truncated(cw_or_text(r), 80)
}

/// The text of a record before the display cut.
pub open spec fn content(n: RawNote) -> Seq<char> {
    match n.renote {
        Some(r) => renote_body(*r),
        None => cw_or_text(n),
    }
}

/// The text that a record shows: at most 100 characters.
pub open spec fn display_body(n: RawNote) -> Seq<char> {
    truncated(content(n), 100)
}

/// Whether a note gives a record: it shows some text, or it is a repost.
pub open spec fn accepted(n: RawNote) -> bool {
    content(n).len() > 0 || n.renote is Some
}

/// The text scanned for the note's own shortcodes: its text and its author's name.
pub open spec fn note_scan_text(n: RawNote) -> Seq<char> {
    let t = match n.text {
        Some(t) => t@,
        None => Seq::empty(),
    };
    t + seq![' '] + author_name(n)
}

/// The text scanned for a repost's shortcodes: the reposted note's text, content
/// warning and author name.
pub open spec fn renote_scan_text(r: RawNote) -> Seq<char> {
    let t = match r.text {
        Some(t) => t@,
        None => Seq::empty(),
    };
    let c = match r.cw {
        Some(c) => seq![' '] + c@,
        None => Seq::empty(),
    };
    t + c + seq![' '] + author_name(r)
}

pub open spec fn emoji_views(v: Seq<EmojiInfo>) -> Seq<(Seq<char>, Seq<char>)> {
    v.map_values(|e: EmojiInfo| e@)
}

pub open spec fn names_of(v: Seq<(Seq<char>, Seq<char>)>) -> Seq<Seq<char>> {
    v.map_values(|e: (Seq<char>, Seq<char>)| e.0)
}

/// The names of `codes` that are not in `known`, each once, in order of
/// first appearance.
pub open spec fn pending(codes: Seq<Seq<char>>, known: Seq<Seq<char>>) -> Seq<Seq<char>>
    decreases codes.len(),
{
    if codes.len() == 0 {
        Seq::empty()
    } else {
        let p = pending(codes.drop_last(), known);
        let c = codes.last();
        if known.contains(c) || p.contains(c) {
            p
        } else {
            p.push(c)
        }
    }
}

/// The shortcodes of the note's own text to look up.
pub open spec fn first_lookups(n: RawNote) -> Seq<Seq<char>> {
    pending(shortcodes(note_scan_text(n)), names_of(emoji_views(n.emojis@)))
}

/// The shortcodes of the repost's text to look up: none that the note's map,
/// the first lookups or the repost's map already cover.
pub open spec fn second_lookups(n: RawNote) -> Seq<Seq<char>> {
    match n.renote {
        Some(r) => pending(
            shortcodes(renote_scan_text(*r)),
            names_of(emoji_views(n.emojis@)) + first_lookups(n) + names_of(emoji_views(r.emojis@)),
        ),
        None => Seq::empty(),
    }
}

/// Every shortcode lookup that a note needs, in the order they are made.
pub open spec fn lookups(n: RawNote) -> Seq<Seq<char>> {
    first_lookups(n) + second_lookups(n)
}

/// The emoji that the lookups `lo..hi` of `plan` found; `resolved[i]` is what
/// the lookup of `plan[i]` gave.
pub open spec fn found(
    plan: Seq<Seq<char>>,
    resolved: Seq<Option<String>>,
    lo: int,
    hi: int,
) -> Seq<(Seq<char>, Seq<char>)>
    decreases hi - lo,
{
    if hi <= lo {
        Seq::empty()
    } else {
        let prev = found(plan, resolved, lo, hi - 1);
        let i = hi - 1;
        if 0 <= i < resolved.len() && resolved[i] is Some {
            prev.push((plan[i], resolved[i]->0@))
        } else {
            prev
        }
    }
}

/// `v` with each name kept at its first occurrence only.
pub open spec fn dedup(v: Seq<(Seq<char>, Seq<char>)>) -> Seq<(Seq<char>, Seq<char>)>
    decreases v.len(),
{
    if v.len() == 0 {
        Seq::empty()
    } else {
        let d = dedup(v.drop_last());
        if names_of(d).contains(v.last().0) {
            d
        } else {
            d.push(v.last())
        }
    }
}

/// The emoji map of the note that `n` reposts.
pub open spec fn renote_map(n: RawNote) -> Seq<(Seq<char>, Seq<char>)> {
    match n.renote {
        Some(r) => emoji_views(r.emojis@),
        None => Seq::empty(),
    }
}

/// The emoji of a record: the note's map, what its lookups found, the
/// repost's map and what the repost's lookups found, each name once.
pub open spec fn record_emojis(n: RawNote, resolved: Seq<Option<String>>) -> Seq<
    (Seq<char>, Seq<char>),
> {
    let plan = lookups(n);
    let k = first_lookups(n).len() as int;
    dedup(
        emoji_views(n.emojis@) + found(plan, resolved, 0, k) + renote_map(n) + found(
            plan,
            resolved,
            k,
            plan.len() as int,
        ),
    )
}

/// The note a frame carries, where the frame is a note event.
pub open spec fn frame_note(f: StreamFrame) -> Option<RawNote> {
    match f.body_type {
        Some(t) if t@ == note_type() => f.note,
        _ => None,
    }
}

/// The host shown for a reposted note's author: empty where the stream
/// gives none.
pub open spec fn renote_host(r: RawNote) -> Seq<char> {
    match r.user {
        Some(u) => match u.host {
            Some(h) => h@,
            None => Seq::empty(),
        },
        None => Seq::empty(),
    }
}

/// `c` is the record of note `n`, read through `account`, with the lookup
/// results `resolved`.
pub open spec fn is_record_of(
    c: Comment,
    n: RawNote,
    account: Account,
    resolved: Seq<Option<String>>,
) -> bool {
    &&& c.text@ == display_body(n)
    &&& c.name@ == author_name(n)
    &&& c.username@ == author_username(n)
    &&& opt_view(c.user_host) == author_host(n)
    &&& match n.renote {
        Some(r) => c.renote_info matches Some(i) && i.name@ == author_name(*r) && i.username@
            == author_username(*r) && i.host@ == renote_host(*r) && i.text@ == renote_body(*r),
        None => c.renote_info is None,
    }
    &&& emoji_views(c.emojis@) == record_emojis(n, resolved)
    &&& opt_view(c.link) == first_url(display_body(n))
    &&& c.url_preview is None
    &&& c.account_color == account.text_color
    &&& c.account_name@ == account.name@
}

// ---------------------------------------------------------------------------
// The executable part
// ---------------------------------------------------------------------------

fn unknown_string() -> (r: String)
    ensures
        r@ == unknown(),
{
    let r = String::from_str("Unknown");
    proof {
        reveal_strlit("Unknown");
        assert("Unknown"@ =~= unknown());
    }
    r
}

fn user_name(user: &Option<RawUser>) -> (r: String)
    ensures
        r@ == user_field(*user, |u: RawUser| u.name),
{
    match user {
        Some(u) => match &u.name {
            Some(s) => s.clone(),
            None => unknown_string(),
        },
        None => unknown_string(),
    }
}

fn user_username(user: &Option<RawUser>) -> (r: String)
    ensures
        r@ == user_field(*user, |u: RawUser| u.username),
{
    match user {
        Some(u) => match &u.username {
            Some(s) => s.clone(),
            None => unknown_string(),
        },
        None => unknown_string(),
    }
}

fn user_host(user: &Option<RawUser>) -> (r: Option<String>)
    ensures
        opt_view(r) == match *user {
            Some(u) => opt_view(u.host),
            None => None,
        },
{
    match user {
        Some(u) => copy_opt(&u.host),
        None => None,
    }
}

fn cw_or_text_exec(n: &RawNote) -> (r: String)
    ensures
        r@ == cw_or_text(*n),
{
    if let Some(c) = &n.cw {
        if c.as_str().unicode_len() > 0 {
            let mut r = String::from_str("CW: ");
            r.append(c.as_str());
            proof {
                reveal_strlit("CW: ");
                assert("CW: "@ =~= cw_marker());
            }
            return r;
        }
    }
    match &n.text {
        Some(t) => t.clone(),
        None => String::new(),
    }
}

fn text_or_empty(o: &Option<String>) -> (r: String)
    ensures
        r@ == match *o {
            Some(t) => t@,
            None => Seq::<char>::empty(),
        },
{
    match o {
        Some(t) => t.clone(),
        None => String::new(),
    }
}

fn note_scan_text_exec(n: &RawNote) -> (r: String)
    ensures
        r@ == note_scan_text(*n),
{
    let mut r = text_or_empty(&n.text);
    r.append(" ");
    let name = user_name(&n.user);
    r.append(name.as_str());
    proof {
        reveal_strlit(" ");
        assert(" "@ =~= seq![' ']);
    }
    r
}

fn renote_scan_text_exec(n: &RawNote) -> (r: String)
    ensures
        r@ == renote_scan_text(*n),
{
    proof {
        reveal_strlit(" ");
        assert(" "@ =~= seq![' ']);
    }
    let mut r = text_or_empty(&n.text);
    if let Some(c) = &n.cw {
        r.append(" ");
        r.append(c.as_str());
    }
    r.append(" ");
    let name = user_name(&n.user);
    r.append(name.as_str());
    assert(r@ =~= renote_scan_text(*n));
    r
}

fn contains_string(v: &Vec<String>, s: &String) -> (r: bool)
    ensures
        r == string_views(v@).contains(s@),
{
    let mut i: usize = 0;
    while i < v.len()
        invariant
            i <= v@.len(),
            forall|j: int| 0 <= j < i ==> v@[j]@ != s@,
        decreases v@.len() - i,
    {
        if v[i] == *s {
            assert(string_views(v@)[i as int] == s@);
            return true;
        }
        i = i + 1;
    }
    proof {
        if string_views(v@).contains(s@) {
            let j = choose|j: int| 0 <= j < string_views(v@).len() && string_views(v@)[j] == s@;
            assert(v@[j]@ == s@);
        }
    }
    false
}

fn emoji_names(v: &Vec<EmojiInfo>) -> (r: Vec<String>)
    ensures
        string_views(r@) == names_of(emoji_views(v@)),
{
    let mut r: Vec<String> = Vec::new();
    for i in 0..v.len()
        invariant
            string_views(r@) == names_of(emoji_views(v@.subrange(0, i as int))),
    {
        let ghost r0 = r@;
        let nm = v[i].name.clone();
        r.push(nm);
        proof {
            assert(r@ == r0.push(nm));
            assert(string_views(r@) =~= string_views(r0).push(nm@));
            assert(v@.subrange(0, i + 1) =~= v@.subrange(0, i as int).push(v@[i as int]));
            assert(emoji_views(v@.subrange(0, i + 1)) =~= emoji_views(v@.subrange(0, i as int)).push(v@[i as int]@));
            assert(names_of(emoji_views(v@.subrange(0, i + 1))) =~= names_of(emoji_views(v@.subrange(0, i as int))).push(v@[i as int]@.0));
            assert(string_views(r@) =~= names_of(emoji_views(v@.subrange(0, i + 1))));
        }
    }
    assert(v@.subrange(0, v@.len() as int) =~= v@);
    r
}

/// The names of `codes` that are neither in `known` nor earlier in `codes`.
fn pending_exec(codes: &Vec<String>, known: &Vec<String>) -> (r: Vec<String>)
    ensures
        string_views(r@) == pending(string_views(codes@), string_views(known@)),
{
    let mut r: Vec<String> = Vec::new();
    for i in 0..codes.len()
        invariant
            string_views(r@) == pending(
                string_views(codes@).subrange(0, i as int),
                string_views(known@),
            ),
    {
        let c = &codes[i];
        let seen = contains_string(known, c) || contains_string(&r, c);
        proof {
            let pre = string_views(codes@).subrange(0, i + 1);
            assert(pre.drop_last() =~= string_views(codes@).subrange(0, i as int));
            assert(pre.last() == c@);
        }
        if !seen {
            let c2 = c.clone();
            proof {
                assert(string_views(r@.push(c2)) =~= string_views(r@).push(c@));
            }
            r.push(c2);
        }
    }
    assert(string_views(codes@).subrange(0, codes@.len() as int) =~= string_views(codes@));
    r
}

fn append_strings(a: &mut Vec<String>, b: &Vec<String>)
    ensures
        string_views(final(a)@) == string_views(old(a)@) + string_views(b@),
        final(a)@.len() == old(a)@.len() + b@.len(),
{
    let ghost a0 = string_views(a@);
    for i in 0..b.len()
        invariant
            string_views(a@) == a0 + string_views(b@).subrange(0, i as int),
            a@.len() == a0.len() + i,
    {
        let ghost r0 = a@;
        let x = b[i].clone();
        a.push(x);
        proof {
            assert(a@ == r0.push(x));
            assert(string_views(a@) =~= string_views(r0).push(x@));
            assert(string_views(b@).subrange(0, i + 1) =~= string_views(b@).subrange(
                0,
                i as int,
            ).push(b@[i as int]@));
            assert(string_views(a@) =~= a0 + string_views(b@).subrange(0, i + 1));
        }
    }
    assert(string_views(b@).subrange(0, b@.len() as int) =~= string_views(b@));
}

fn first_lookups_exec(n: &RawNote) -> (r: Vec<String>)
    ensures
        string_views(r@) == first_lookups(*n),
{
    let scan = note_scan_text_exec(n);
    let codes = scan_shortcodes(scan.as_str());
    let known = emoji_names(&n.emojis);
    pending_exec(&codes, &known)
}

fn second_lookups_exec(n: &RawNote, first: &Vec<String>) -> (r: Vec<String>)
    requires
        string_views(first@) == first_lookups(*n),
    ensures
        string_views(r@) == second_lookups(*n),
{
    match &n.renote {
        Some(rn) => {
            let scan = renote_scan_text_exec(rn);
            let codes = scan_shortcodes(scan.as_str());
            let mut known = emoji_names(&n.emojis);
            append_strings(&mut known, first);
            let theirs = emoji_names(&rn.emojis);
            append_strings(&mut known, &theirs);
            pending_exec(&codes, &known)
        },
        None => Vec::new(),
    }
}

/// Whether the frame's body type is "note".
fn is_note_type(t: &String) -> (r: bool)
    ensures
        r == (t@ == note_type()),
{
    let note = String::from_str("note");
    proof {
        reveal_strlit("note");
        assert("note"@ =~= note_type());
    }
    *t == note
}

/// The note that a frame carries, where it is a note event.
pub fn frame_note_exec(frame: &StreamFrame) -> (r: Option<&RawNote>)
    ensures
        match frame_note(*frame) {
            Some(n) => r == Some(&n),
            None => r is None,
        },
{
    match &frame.body_type {
        Some(t) => {
            if is_note_type(t) {
                match &frame.note {
                    Some(n) => Some(n),
                    None => None,
                }
            } else {
                None
            }
        },
        None => None,
    }
}

/// The shortcodes whose emoji a frame needs looked up, in the order the
/// lookups are to be made; empty where the frame is no note event.
pub fn emoji_lookups(frame: &StreamFrame) -> (r: Vec<String>)
    ensures
        match frame_note(*frame) {
            Some(n) => string_views(r@) == lookups(n),
            None => r@.len() == 0,
        },
{
    match frame_note_exec(frame) {
        Some(n) => {
            let mut r = first_lookups_exec(n);
            let second = second_lookups_exec(n, &r);
            append_strings(&mut r, &second);
            r
        },
        None => Vec::new(),
    }
}

fn has_name(v: &Vec<EmojiInfo>, name: &String) -> (r: bool)
    ensures
        r == names_of(emoji_views(v@)).contains(name@),
{
    let mut i: usize = 0;
    while i < v.len()
        invariant
            i <= v@.len(),
            forall|j: int| 0 <= j < i ==> v@[j].name@ != name@,
        decreases v@.len() - i,
    {
        if v[i].name == *name {
            assert(names_of(emoji_views(v@))[i as int] == name@);
            return true;
        }
        i = i + 1;
    }
    proof {
        if names_of(emoji_views(v@)).contains(name@) {
            let j = choose|j: int|
                0 <= j < names_of(emoji_views(v@)).len() && names_of(emoji_views(v@))[j] == name@;
            assert(v@[j].name@ == name@);
        }
    }
    false
}

fn dedup_exec(v: &Vec<EmojiInfo>) -> (r: Vec<EmojiInfo>)
    ensures
        emoji_views(r@) == dedup(emoji_views(v@)),
{
    let mut r: Vec<EmojiInfo> = Vec::new();
    for i in 0..v.len()
        invariant
            emoji_views(r@) == dedup(emoji_views(v@).subrange(0, i as int)),
    {
        let ghost r0 = r@;
        proof {
            let pre = emoji_views(v@).subrange(0, i + 1);
            assert(pre.drop_last() =~= emoji_views(v@).subrange(0, i as int));
            assert(pre.last() == v@[i as int]@);
        }
        if !has_name(&r, &v[i].name) {
            let e = v[i].copy();
            r.push(e);
            assert(emoji_views(r@) =~= emoji_views(r0).push(e@));
        }
    }
    assert(emoji_views(v@).subrange(0, v@.len() as int) =~= emoji_views(v@));
    r
}

fn append_emojis(a: &mut Vec<EmojiInfo>, b: &Vec<EmojiInfo>)
    ensures
        emoji_views(final(a)@) == emoji_views(old(a)@) + emoji_views(b@),
{
    let ghost a0 = emoji_views(a@);
    for i in 0..b.len()
        invariant
            emoji_views(a@) == a0 + emoji_views(b@).subrange(0, i as int),
    {
        let ghost r0 = a@;
        let x = b[i].copy();
        a.push(x);
        proof {
            assert(emoji_views(a@) =~= emoji_views(r0).push(x@));
            assert(emoji_views(b@).subrange(0, i + 1) =~= emoji_views(b@).subrange(
                0,
                i as int,
            ).push(b@[i as int]@));
        }
    }
    assert(emoji_views(b@).subrange(0, b@.len() as int) =~= emoji_views(b@));
}

fn append_found(
    a: &mut Vec<EmojiInfo>,
    plan: &Vec<String>,
    resolved: &Vec<Option<String>>,
    lo: usize,
    hi: usize,
)
    requires
        lo <= hi <= plan@.len(),
    ensures
        emoji_views(final(a)@) == emoji_views(old(a)@) + found(
            string_views(plan@),
            resolved@,
            lo as int,
            hi as int,
        ),
{
    let ghost a0 = emoji_views(a@);
    let mut i = lo;
    while i < hi
        invariant
            lo <= i <= hi <= plan@.len(),
            emoji_views(a@) == a0 + found(string_views(plan@), resolved@, lo as int, i as int),
        decreases hi - i,
    {
        if i < resolved.len() {
            if let Some(u) = &resolved[i] {
                let ghost r0 = a@;
                let e = EmojiInfo { name: plan[i].clone(), url: u.clone() };
                a.push(e);
                assert(emoji_views(a@) =~= emoji_views(r0).push(e@));
            }
        }
        i = i + 1;
    }
}

fn renote_host_exec(r: &RawNote) -> (h: String)
    ensures
        h@ == renote_host(*r),
{
    match &r.user {
        Some(u) => text_or_empty(&u.host),
        None => String::new(),
    }
}

/// The record of one frame, for the account whose stream gave it.
/// `resolved[i]` is the URL that the lookup of the `i`-th shortcode of
/// `emoji_lookups(frame)` found; a missing entry counts as not found.
/// No record comes of a frame that is no note event, nor of a note that
/// shows no text and reposts nothing.
pub fn normalize_frame(
    frame: &StreamFrame,
    account: &Account,
    resolved: &Vec<Option<String>>,
) -> (r: Option<Comment>)
    ensures
        match frame_note(*frame) {
            Some(n) => (r is Some <==> accepted(n)) && (r matches Some(c) ==> is_record_of(
                c,
                n,
                *account,
                resolved@,
            )),
            None => r is None,
        },
        r matches Some(c) ==> c.text@.len() <= 103,
        r matches Some(c) ==> (c.renote_info matches Some(i) ==> i.text@.len() <= 83),
{
    let n = match frame_note_exec(frame) {
        Some(n) => n,
        None => return None,
    };
    let content = match &n.renote {
        Some(rn) => {
            let body = cw_or_text_exec(rn);
            truncate_chars(body.as_str(), 80)
        },
        None => cw_or_text_exec(n),
    };
    if content.as_str().unicode_len() == 0 && n.renote.is_none() {
        return None;
    }
    let text = truncate_chars(content.as_str(), 100);
    let link = detect_url(text.as_str());

    let first = first_lookups_exec(n);
    let second = second_lookups_exec(n, &first);
    let k = first.len();
    let mut plan = first;
    append_strings(&mut plan, &second);
    let mut all: Vec<EmojiInfo> = Vec::new();
    append_emojis(&mut all, &n.emojis);
    append_found(&mut all, &plan, resolved, 0, k);
    if let Some(rn) = &n.renote {
        append_emojis(&mut all, &rn.emojis);
    }
    let total = plan.len();
    append_found(&mut all, &plan, resolved, k, total);
    let emojis = dedup_exec(&all);
    proof {
        assert(emoji_views(all@) =~= emoji_views(n.emojis@) + found(
            lookups(*n),
            resolved@,
            0,
            k as int,
        ) + renote_map(*n) + found(lookups(*n), resolved@, k as int, total as int));
    }

    proof {
        lemma_body_lengths(*n);
    }
    let renote_info = match &n.renote {
        Some(rn) => Some(
            RenoteInfo {
                name: user_name(&rn.user),
                username: user_username(&rn.user),
                host: renote_host_exec(rn),
                text: content.clone(),
            },
        ),
        None => None,
    };
    Some(
        Comment {
            text,
            name: user_name(&n.user),
            username: user_username(&n.user),
            user_host: user_host(&n.user),
            renote_info,
            emojis,
            link,
            url_preview: None,
            account_color: account.text_color,
            account_name: account.name.clone(),
        },
    )
}

// ---------------------------------------------------------------------------
// Guarantees
// ---------------------------------------------------------------------------

/// A record's text holds at most 100 characters and the three-character
/// ellipsis; the text shown for a reposted note at most 80 and the ellipsis.
pub proof fn lemma_body_lengths(n: RawNote)
    ensures
        display_body(n).len() <= 103,
        n.renote matches Some(r) ==> renote_body(*r).len() <= 83,
{
}

proof fn lemma_pending(codes: Seq<Seq<char>>, known: Seq<Seq<char>>)
    ensures
        pending(codes, known).no_duplicates(),
        forall|x: Seq<char>| #[trigger]
            pending(codes, known).contains(x) ==> codes.contains(x) && !known.contains(x),
    decreases codes.len(),
{
    if codes.len() > 0 {
        let p = pending(codes.drop_last(), known);
        lemma_pending(codes.drop_last(), known);
        assert forall|x: Seq<char>| #[trigger] p.contains(x) implies codes.contains(x) by {
            let j = choose|j: int| 0 <= j < p.len() && p[j] == x;
            let i = choose|i: int| 0 <= i < codes.drop_last().len() && codes.drop_last()[i] == x;
            assert(codes[i] == x);
        }
        let c = codes.last();
        if !(known.contains(c) || p.contains(c)) {
            let q = p.push(c);
            assert forall|x: Seq<char>| #[trigger] q.contains(x) implies codes.contains(x)
                && !known.contains(x) by {
                let j = choose|j: int| 0 <= j < q.len() && q[j] == x;
                if j < p.len() {
                    assert(p.contains(x));
                } else {
                    assert(codes[codes.len() - 1] == x);
                }
            }
            assert forall|i: int, j: int| 0 <= i < q.len() && 0 <= j < q.len() && i != j implies q[i]
                != q[j] by {
                if i == p.len() as int {
                    assert(p.contains(q[j]));
                } else if j == p.len() as int {
                    assert(p.contains(q[i]));
                }
            }
        }
    }
}

/// Each shortcode is looked up at most once per frame, however often it
/// appears in the texts; none that an emoji map of the note or of its repost
/// resolves is looked up, and nothing but a shortcode of the scanned texts.
pub proof fn lemma_lookups_once(n: RawNote)
    ensures
        lookups(n).no_duplicates(),
        forall|x: Seq<char>| #[trigger]
            lookups(n).contains(x) ==> !names_of(emoji_views(n.emojis@)).contains(x),
        forall|x: Seq<char>| #[trigger]
            lookups(n).contains(x) ==> !names_of(renote_map(n)).contains(x) || first_lookups(
                n,
            ).contains(x),
        forall|x: Seq<char>| #[trigger]
            lookups(n).contains(x) ==> shortcodes(note_scan_text(n)).contains(x) || match n.renote {
                Some(r) => shortcodes(renote_scan_text(*r)).contains(x),
                None => false,
            },
{
    let f = first_lookups(n);
    let s = second_lookups(n);
    let own = names_of(emoji_views(n.emojis@));
    lemma_pending(shortcodes(note_scan_text(n)), own);
    match n.renote {
        Some(r) => {
            let known = own + f + names_of(emoji_views(r.emojis@));
            lemma_pending(shortcodes(renote_scan_text(*r)), known);
            assert forall|x: Seq<char>| #[trigger] s.contains(x) implies !own.contains(x)
                && !f.contains(x) && !names_of(renote_map(n)).contains(x) by {
                if own.contains(x) {
                    let i = choose|i: int| 0 <= i < own.len() && own[i] == x;
                    assert(known[i] == x);
                }
                if f.contains(x) {
                    let i = choose|i: int| 0 <= i < f.len() && f[i] == x;
                    assert(known[own.len() + i] == x);
                }
                if names_of(renote_map(n)).contains(x) {
                    let rm = names_of(emoji_views(r.emojis@));
                    let i = choose|i: int| 0 <= i < rm.len() && rm[i] == x;
                    assert(known[own.len() + f.len() + i] == x);
                }
            }
        },
        None => {
            assert(s =~= Seq::<Seq<char>>::empty());
        },
    }
    let l = lookups(n);
    assert forall|i: int, j: int| 0 <= i < l.len() && 0 <= j < l.len() && i != j implies l[i]
        != l[j] by {
        if i < f.len() && j >= f.len() {
            assert(f.contains(l[i]));
            assert(s[j - f.len()] == l[j]);
            assert(s.contains(l[j]));
        } else if j < f.len() && i >= f.len() {
            assert(f.contains(l[j]));
            assert(s[i - f.len()] == l[i]);
            assert(s.contains(l[i]));
        } else if i >= f.len() {
            assert(s[i - f.len()] == l[i]);
            assert(s[j - f.len()] == l[j]);
        }
    }
    assert forall|x: Seq<char>| #[trigger] l.contains(x) implies f.contains(x) || s.contains(x) by {
        let i = choose|i: int| 0 <= i < l.len() && l[i] == x;
        if i < f.len() {
            assert(f[i] == x);
        } else {
            assert(s[i - f.len()] == x);
        }
    }
}

} // verus!
