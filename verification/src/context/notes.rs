//! Private notes of a session, under virtual paths.
use vstd::prelude::*;
#[allow(unused_imports)]
use vstd::string::*;

#[allow(unused_imports)]
use crate::text::{
    byte_count, byte_len, cat5, chars_of, control, has_prefix, is_before, is_control,
    lemma_text_before_asymmetric, lemma_text_before_total, lemma_text_before_transitive, same_text,
    slice_chars, sliced, split, split_at_char, strip_prefix, text_before, until, views,
};

verus! {

/// How many bytes a note may hold.
pub const MAX_NOTE_BYTES: usize = 1_000_000;

/// How many bytes the notes of a session may hold.
pub const MAX_SESSION_BYTES: usize = 16_000_000;

/// How many characters a digest of the notes may hold.
pub const DIGEST_CHARS: usize = 16_000;

/// A note.
#[derive(Debug, Clone, PartialEq, Eq)]
pub struct Note {
    pub path: String,
    pub text: String,
}

/// The path and the text of a note.
pub type NotePair = (Seq<char>, Seq<char>);

/// The paths and texts of some notes.
pub open spec fn note_pairs(s: Seq<Note>) -> Seq<NotePair> {
    s.map_values(|n: Note| (n.path@, n.text@))
}

/// The text under a path, if there is a note.
pub open spec fn note_text(s: Seq<NotePair>, path: Seq<char>) -> Option<Seq<char>>
    decreases s.len(),
{
    if s.len() == 0 {
        None
    } else if s[0].0 == path {
        Some(s[0].1)
    } else {
        note_text(s.drop_first(), path)
    }
}

/// Notes with a text under a path: the paths stay in order.
pub open spec fn with_note(s: Seq<NotePair>, path: Seq<char>, text: Seq<char>) -> Seq<NotePair>
    decreases s.len(),
{
    if s.len() == 0 {
        seq![(path, text)]
    } else if s[0].0 == path {
        seq![(path, text)] + s.drop_first()
    } else if text_before(path, s[0].0) {
        seq![(path, text)] + s
    } else {
        seq![s[0]] + with_note(s.drop_first(), path, text)
    }
}

/// The paths are in order, and no two are equal.
pub open spec fn notes_sorted(s: Seq<NotePair>) -> bool {
    forall|i: int, j: int|
        0 <= i < j < s.len() ==> text_before((#[trigger] s[i]).0, (#[trigger] s[j]).0)
}

/// How many bytes the texts of some notes hold.
pub open spec fn notes_bytes(s: Seq<NotePair>) -> nat
    decreases s.len(),
{
    if s.len() == 0 {
        0
    } else {
        notes_bytes(s.drop_last()) + byte_len(s.last().1)
    }
}

/// Looks up the note under a path.
pub fn find_note(notes: &Vec<Note>, path: &str) -> (r: Option<usize>)
    ensures
        match r {
            Some(i) => i < notes@.len() && notes@[i as int].path@ == path@ && note_text(
                note_pairs(notes@),
                path@,
            ) == Some(notes@[i as int].text@),
            None => note_text(note_pairs(notes@), path@) is None,
        },
{
    let ghost all = note_pairs(notes@);
    let mut i: usize = 0;
    proof {
        assert(all.skip(0) =~= all);
    }
    while i < notes.len()
        invariant
            i <= notes@.len(),
            all == note_pairs(notes@),
            note_text(all, path@) == note_text(all.skip(i as int), path@),
        decreases notes.len() - i,
    {
        proof {
            assert(all.skip(i as int)[0] == all[i as int]);
            assert(all.skip(i as int).drop_first() =~= all.skip(i + 1));
        }
        if same_text(notes[i].path.as_str(), path) {
            return Some(i);
        }
        i += 1;
    }
    None
}

/// Puts a text under a path.
pub fn put_note(notes: &mut Vec<Note>, path: &str, text: String)
    ensures
        note_pairs(final(notes)@) == with_note(note_pairs(old(notes)@), path@, text@),
{
    let ghost all = note_pairs(notes@);
    let ghost word = text@;
    let ghost held = notes@;
    let mut i: usize = 0;
    proof {
        assert(all.skip(0) =~= all);
        assert(all.take(0) + with_note(all, path@, word) =~= with_note(all, path@, word));
    }
    while i < notes.len() && is_before(notes[i].path.as_str(), path)
        invariant
            notes@ == held,
            all == note_pairs(held),
            word == text@,
            i <= notes@.len(),
            with_note(all, path@, word) == all.take(i as int) + with_note(
                all.skip(i as int),
                path@,
                word,
            ),
        decreases notes.len() - i,
    {
        proof {
            let rest = all.skip(i as int);
            assert(rest[0] == all[i as int]);
            assert(rest.drop_first() =~= all.skip(i + 1));
            lemma_text_before_asymmetric(all[i as int].0, path@);
            assert(!text_before(path@, all[i as int].0));
            assert(all.take(i as int) + (seq![rest[0]] + with_note(
                rest.drop_first(),
                path@,
                word,
            )) =~= all.take(i + 1) + with_note(all.skip(i + 1), path@, word));
        }
        i += 1;
    }
    let ghost rest = all.skip(i as int);
    if i < notes.len() && same_text(notes[i].path.as_str(), path) {
        notes[i].text = text;
        proof {
            assert(rest[0] == all[i as int]);
            assert(note_pairs(notes@) =~= all.take(i as int) + (seq![(path@, word)]
                + rest.drop_first()));
        }
    } else {
        proof {
            if i < held.len() {
                assert(rest[0] == all[i as int]);
                lemma_text_before_total(held[i as int].path@, path@);
            }
        }
        notes.insert(i, Note { path: path.to_owned(), text });
        proof {
            assert(note_pairs(notes@) =~= all.take(i as int) + (seq![(path@, word)] + rest));
            if i >= held.len() {
                assert(rest =~= Seq::<NotePair>::empty());
                assert(seq![(path@, word)] + rest =~= seq![(path@, word)]);
            }
        }
    }
}

/// Whether the texts of some notes hold more bytes than a session may.
pub fn notes_too_large(notes: &Vec<Note>) -> (r: bool)
    ensures
        r == (notes_bytes(note_pairs(notes@)) > MAX_SESSION_BYTES),
{
    let ghost all = note_pairs(notes@);
    let mut total: usize = 0;
    let mut i: usize = 0;
    while i < notes.len()
        invariant
            i <= notes@.len(),
            all == note_pairs(notes@),
            total <= MAX_SESSION_BYTES,
            total == notes_bytes(all.take(i as int)),
        decreases notes.len() - i,
    {
        let n: usize = byte_count(notes[i].text.as_str());
        proof {
            assert(all.take(i + 1).drop_last() =~= all.take(i as int));
        }
        if n > MAX_SESSION_BYTES - total {
            proof {
                lemma_bytes_grow(all, i + 1);
            }
            return true;
        }
        total += n;
        i += 1;
    }
    proof {
        assert(all.take(i as int) =~= all);
    }
    false
}

proof fn lemma_bytes_grow(s: Seq<NotePair>, k: int)
    requires
        0 <= k <= s.len(),
    ensures
        notes_bytes(s.take(k)) <= notes_bytes(s),
    decreases s.len() - k,
{
    if k < s.len() {
        assert(s.take(k + 1).drop_last() =~= s.take(k));
        lemma_bytes_grow(s, k + 1);
    } else {
        assert(s.take(k) =~= s);
    }
}

// ---- paths ----

/// A part of a path that a note may not have.
pub open spec fn bad_part(p: Seq<char>) -> bool {
    p == ""@ || p == "."@ || p == ".."@
}

/// A path without the place where notes seem to stand.
pub open spec fn local_path(path: Seq<char>) -> Seq<char> {
    if has_prefix(path, "/root/notes/"@) {
        path.skip("/root/notes/"@.len() as int)
    } else {
        path
    }
}

/// A character that a path of a note may not have.
pub open spec fn bad_path_char(c: char) -> bool {
    c == '\\' || c == ':' || control(c)
}

/// A path that a note may have: relative, with no empty, `.` or `..` part, no
/// character that could lead elsewhere, and of some length at most.
pub open spec fn good_path(p: Seq<char>) -> bool {
    &&& p.len() > 0
    &&& byte_len(p) <= 512
    &&& forall|i: int| 0 <= i < p.len() ==> !bad_path_char(#[trigger] p[i])
    &&& forall|i: int| 0 <= i < split(p, '/').len() ==> !bad_part(#[trigger] split(p, '/')[i])
}

/// What is wrong with a path that no note may have.
pub const BAD_PATH: &'static str =
    "Use a relative virtual note path without empty, . or .. components";

/// The path of a note without the place where notes seem to stand.
pub fn local_note_path<'a>(path: &'a str) -> (r: &'a str)
    ensures
        r@ == local_path(path@),
{
    match strip_prefix(path, "/root/notes/") {
        Some(rest) => rest,
        None => path,
    }
}

/// The path under which a note is kept.
#[verifier::loop_isolation(false)]
pub fn note_key(path: &str) -> (r: Result<String, String>)
    ensures
        match r {
            Ok(key) => good_path(local_path(path@)) && key@ == local_path(path@),
            Err(e) => !good_path(local_path(path@)) && e@ == BAD_PATH@,
        },
{
    let key: &str = local_note_path(path);
    if key.is_empty() || byte_count(key) > 512 {
        return Err(BAD_PATH.to_owned());
    }
    let v: Vec<char> = chars_of(key);
    let mut i: usize = 0;
    while i < v.len()
        invariant
            i <= v@.len(),
            v@ == key@,
            forall|j: int| 0 <= j < i ==> !bad_path_char(#[trigger] key@[j]),
        decreases v.len() - i,
    {
        if v[i] == '\\' || v[i] == ':' || is_control(v[i]) {
            proof {
                assert(bad_path_char(key@[i as int]));
            }
            return Err(BAD_PATH.to_owned());
        }
        i += 1;
    }
    let parts: Vec<String> = split_at_char(key, '/');
    let mut j: usize = 0;
    while j < parts.len()
        invariant
            j <= parts@.len(),
            views(parts@) == split(key@, '/'),
            forall|k: int| 0 <= k < j ==> !bad_part(#[trigger] split(key@, '/')[k]),
        decreases parts.len() - j,
    {
        proof {
            assert(split(key@, '/')[j as int] == parts@[j as int]@);
        }
        let part: &str = parts[j].as_str();
        if same_text(part, "") || same_text(part, ".") || same_text(part, "..") {
            return Err(BAD_PATH.to_owned());
        }
        j += 1;
    }
    Ok(key.to_owned())
}

// ---- digest ----

/// A note as it stands in a digest.
pub open spec fn digest_entry(n: NotePair) -> Seq<char> {
    "\n["@ + n.0 + "]\n"@ + n.1 + "\n"@
}

/// Some notes one after another.
pub open spec fn digest_all(s: Seq<NotePair>) -> Seq<char>
    decreases s.len(),
{
    if s.len() == 0 {
        Seq::empty()
    } else {
        digest_all(s.drop_last()) + digest_entry(s.last())
    }
}

proof fn lemma_digest_grows(s: Seq<NotePair>, k: int)
    requires
        0 <= k <= s.len(),
    ensures
        digest_all(s.take(k)).len() <= digest_all(s).len(),
        digest_all(s).take(digest_all(s.take(k)).len() as int) == digest_all(s.take(k)),
    decreases s.len() - k,
{
    if k < s.len() {
        assert(s.take(k + 1).drop_last() =~= s.take(k));
        lemma_digest_grows(s, k + 1);
        let a = digest_all(s.take(k));
        let b = digest_all(s.take(k + 1));
        assert(b.take(a.len() as int) =~= a);
        assert(digest_all(s).take(b.len() as int).take(a.len() as int) =~= digest_all(s).take(
            a.len() as int,
        ));
    } else {
        assert(s.take(k) =~= s);
        assert(digest_all(s).take(digest_all(s).len() as int) =~= digest_all(s));
    }
}

/// The beginning of the notes one after another.
pub fn note_digest(notes: &Vec<Note>) -> (r: String)
    ensures
        r@ == sliced(digest_all(note_pairs(notes@)), 0, DIGEST_CHARS as int),
{
    let ghost all = note_pairs(notes@);
    let mut output: String = String::new();
    let mut i: usize = 0;
    proof {
        assert(output@ =~= sliced(digest_all(all.take(0)), 0, DIGEST_CHARS as int));
    }
    while i < notes.len()
        invariant
            i <= notes@.len(),
            all == note_pairs(notes@),
            output@ == sliced(digest_all(all.take(i as int)), 0, DIGEST_CHARS as int),
        decreases notes.len() - i,
    {
        let count: usize = output.as_str().unicode_len();
        if count >= DIGEST_CHARS {
            proof {
                lemma_digest_grows(all, i as int);
                let a = digest_all(all.take(i as int));
                assert(digest_all(all).take(a.len() as int).take(DIGEST_CHARS as int)
                    =~= digest_all(all).take(DIGEST_CHARS as int));
                assert(output@ =~= sliced(digest_all(all), 0, DIGEST_CHARS as int));
            }
            return output;
        }
        let entry: String = cat5(
            "\n[",
            notes[i].path.as_str(),
            "]\n",
            notes[i].text.as_str(),
            "\n",
        );
        proof {
            assert(all.take(i + 1).drop_last() =~= all.take(i as int));
            let a = digest_all(all.take(i as int));
            assert(a.len() < DIGEST_CHARS);
            assert(output@ =~= a);
            assert(entry@ == digest_entry(all[i as int]));
            assert(a + sliced(entry@, 0, DIGEST_CHARS - a.len()) =~= sliced(
                a + entry@,
                0,
                DIGEST_CHARS as int,
            ));
        }
        output.append(slice_chars(entry.as_str(), 0, DIGEST_CHARS - count).as_str());
        i += 1;
    }
    proof {
        assert(all.take(i as int) =~= all);
    }
    output
}

// ---- laws ----

/// A text is read back as it was written, and the other notes stay.
pub proof fn law_written_note_is_read_back(
    s: Seq<NotePair>,
    path: Seq<char>,
    text: Seq<char>,
    other: Seq<char>,
)
    ensures
        note_text(with_note(s, path, text), path) == Some(text),
        other != path ==> note_text(with_note(s, path, text), other) == note_text(s, other),
    decreases s.len(),
{
    let out = with_note(s, path, text);
    if s.len() == 0 {
        assert(out.drop_first() =~= s);
    } else if s[0].0 == path {
        assert(out.drop_first() =~= s.drop_first());
    } else if text_before(path, s[0].0) {
        assert(out.drop_first() =~= s);
    } else {
        assert(out.drop_first() =~= with_note(s.drop_first(), path, text));
        law_written_note_is_read_back(s.drop_first(), path, text, other);
    }
}

proof fn lemma_with_note_member(s: Seq<NotePair>, path: Seq<char>, text: Seq<char>, i: int)
    requires
        0 <= i < with_note(s, path, text).len(),
    ensures
        with_note(s, path, text)[i].0 == path || exists|k: int|
            0 <= k < s.len() && (#[trigger] s[k]).0 == with_note(s, path, text)[i].0,
    decreases s.len(),
{
    let out = with_note(s, path, text);
    if s.len() == 0 {
    } else if s[0].0 == path {
        if i > 0 {
            assert(out[i] == s[i]);
        }
    } else if text_before(path, s[0].0) {
        if i > 0 {
            assert(out[i] == s[i - 1]);
        }
    } else if i == 0 {
        assert(out[0] == s[0]);
    } else {
        let rest = s.drop_first();
        assert(out[i] == with_note(rest, path, text)[i - 1]);
        lemma_with_note_member(rest, path, text, i - 1);
        if out[i].0 != path {
            let k = choose|k: int| 0 <= k < rest.len() && (#[trigger] rest[k]).0 == out[i].0;
            assert(s[k + 1].0 == out[i].0);
        }
    }
}

/// Writing a note keeps the notes in the order of their paths.
pub proof fn law_notes_stay_sorted(s: Seq<NotePair>, path: Seq<char>, text: Seq<char>)
    requires
        notes_sorted(s),
    ensures
        notes_sorted(with_note(s, path, text)),
    decreases s.len(),
{
    let out = with_note(s, path, text);
    if s.len() == 0 {
    } else if s[0].0 == path {
        assert forall|i: int, j: int| 0 <= i < j < out.len() implies text_before(
            (#[trigger] out[i]).0,
            (#[trigger] out[j]).0,
        ) by {
            assert(out[i].0 == s[i].0 && out[j].0 == s[j].0);
        }
    } else if text_before(path, s[0].0) {
        assert forall|i: int, j: int| 0 <= i < j < out.len() implies text_before(
            (#[trigger] out[i]).0,
            (#[trigger] out[j]).0,
        ) by {
            assert(out[j] == s[j - 1]);
            if i == 0 {
                if j > 1 {
                    lemma_text_before_transitive(path, s[0].0, s[j - 1].0);
                }
            } else {
                assert(out[i] == s[i - 1]);
            }
        }
    } else {
        let rest = s.drop_first();
        assert(notes_sorted(rest));
        law_notes_stay_sorted(rest, path, text);
        let tail = with_note(rest, path, text);
        lemma_text_before_total(s[0].0, path);
        assert forall|i: int, j: int| 0 <= i < j < out.len() implies text_before(
            (#[trigger] out[i]).0,
            (#[trigger] out[j]).0,
        ) by {
            assert(out[j] == tail[j - 1]);
            if i == 0 {
                lemma_with_note_member(rest, path, text, j - 1);
                if out[j].0 != path {
                    let k = choose|k: int|
                        0 <= k < rest.len() && (#[trigger] rest[k]).0 == tail[j - 1].0;
                    assert(s[k + 1].0 == out[j].0);
                }
            } else {
                assert(out[i] == tail[i - 1]);
            }
        }
    }
}

/// No path of a note leads out of the notes: it does not begin with `/`, and no
/// part of it is `..`.
pub proof fn law_note_paths_stay_inside(path: Seq<char>)
    requires
        good_path(path),
    ensures
        path[0] != '/',
        forall|i: int| 0 <= i < split(path, '/').len() ==> #[trigger] split(path, '/')[i] != ".."@,
{
    if path[0] == '/' {
        let first = split(path, '/')[0];
        assert(until(path, '/') == 0);
        assert(path.take(0) =~= ""@) by {
            reveal_strlit("");
        }
        assert(bad_part(first));
    }
}

/// A digest never holds more characters than it may, and is a beginning of the
/// notes one after another.
pub proof fn law_digests_are_bounded(s: Seq<NotePair>)
    ensures
        sliced(digest_all(s), 0, DIGEST_CHARS as int).len() <= DIGEST_CHARS,
        sliced(digest_all(s), 0, DIGEST_CHARS as int).is_prefix_of(digest_all(s)),
{
    let d = digest_all(s);
    let t = sliced(d, 0, DIGEST_CHARS as int);
    assert(t =~= d.subrange(0, t.len() as int));
}

} // verus!
