//! The activation journal's text format: one line per file that an
//! activation added to or replaced in the game directory, written before
//! the game file is touched, so that an interrupted activation can be
//! undone.

use vstd::prelude::*;
use vstd::string::{StrSliceExecFns, StringExecFns, StringSliceAdditionalSpecFns};
use vstd::utf8::{decode_utf8, decode_utf8_encode_utf8, encode_utf8, valid_utf8};
use crate::error::ManagerError;
use crate::paths::FsPath;
use crate::profile::{Entries, has_key, key_at, unique_keys};

verus! {

/// What an activation did to one game file.
#[derive(Clone, Copy, Debug, PartialEq, Eq, Structural)]
pub enum JournalAction {
    /// The file was new to the game directory.
    Added,
    /// The file replaced one that was there, which was backed up.
    Replaced,
}

/// The word a journal line starts with.
pub open spec fn action_word(a: JournalAction) -> Seq<char> {
    match a {
        JournalAction::Added => seq!['A', 'd', 'd'],
        JournalAction::Replaced => seq!['R', 'e', 'p', 'l', 'a', 'c', 'e'],
    }
}

/// Relies on `String::from_utf8`: it succeeds exactly on well-formed
/// UTF-8, with the text the bytes encode.
#[verifier::external_body]
fn text_from_bytes(b: &Vec<u8>) -> (r: Option<String>)
    ensures
        r is Some <==> valid_utf8(b@),
        r matches Some(s) ==> s@ == decode_utf8(b@),
{
    String::from_utf8(b.clone()).ok()
}

/// Every component of the path is well-formed UTF-8.
pub open spec fn all_utf8(p: Seq<Seq<u8>>) -> bool {
    forall|i: int| 0 <= i < p.len() ==> valid_utf8(#[trigger] p[i])
}

/// A path as text: its components decoded, separated by `/`.
pub open spec fn path_text(p: Seq<Seq<u8>>) -> Seq<char>
    decreases p.len(),
{
    if p.len() == 0 {
        Seq::empty()
    } else if p.len() == 1 {
        decode_utf8(p[0])
    } else {
        path_text(p.drop_last()) + seq!['/'] + decode_utf8(p.last())
    }
}

/// The path as text, if every component is UTF-8.
pub fn rel_path_text(p: &FsPath) -> (r: Option<String>)
    ensures
        r is Some <==> all_utf8(p@),
        r matches Some(s) ==> s@ == path_text(p@),
{
    let mut text = String::new();
    let mut i: usize = 0;
    while i < p.parts.len()
        invariant
            i <= p@.len(),
            all_utf8(p@.subrange(0, i as int)),
            text@ == path_text(p@.subrange(0, i as int)),
        decreases p@.len() - i,
    {
        let ghost sub = p@.subrange(0, i + 1);
        assert(sub.drop_last() =~= p@.subrange(0, i as int));
        match text_from_bytes(&p.parts[i]) {
            Some(part) => {
                if i > 0 {
                    proof {
                        reveal_strlit("/");
                    }
                    text.append("/");
                }
                text.append(part.as_str());
                assert(text@ =~= path_text(sub));
                i = i + 1;
            },
            None => {
                assert(!valid_utf8(p@[i as int]));
                return None;
            },
        }
    }
    assert(p@.subrange(0, p@.len() as int) =~= p@);
    Some(text)
}

/// The journal line recording `action` on the file at `rel`.
pub open spec fn journal_line_spec(action: JournalAction, rel: Seq<Seq<u8>>) -> Seq<char> {
    action_word(action) + seq![' '] + path_text(rel) + seq!['\n']
}

/// The line to append to the journal for `action` on `rel`. The journal is
/// read back as text, so a path that is not UTF-8 cannot be recorded.
pub fn journal_line(action: JournalAction, rel: &FsPath) -> (r: Result<String, ManagerError>)
    ensures
        r is Ok <==> all_utf8(rel@),
        r matches Ok(s) ==> s@ == journal_line_spec(action, rel@),
        r is Err ==> (r->Err_0 matches ManagerError::Encoding { file } && file@ == rel@),
{
    match rel_path_text(rel) {
        Some(text) => {
            let mut line = match action {
                JournalAction::Added => {
                    proof {
                        reveal_strlit("Add ");
                    }
                    String::from_str("Add ")
                },
                JournalAction::Replaced => {
                    proof {
                        reveal_strlit("Replace ");
                    }
                    String::from_str("Replace ")
                },
            };
            line.append(text.as_str());
            proof {
                reveal_strlit("\n");
            }
            line.append("\n");
            assert(line@ =~= journal_line_spec(action, rel@));
            Ok(line)
        },
        None => Err(ManagerError::Encoding { file: rel.duplicate() }),
    }
}

/// Unicode's White_Space characters, which separate a journal line's two
/// fields.
pub open spec fn is_white_space(c: char) -> bool {
    let u = c as u32;
    ||| 0x09 <= u <= 0x0d
    ||| u == 0x20
    ||| u == 0x85
    ||| u == 0xa0
    ||| u == 0x1680
    ||| 0x2000 <= u <= 0x200a
    ||| u == 0x2028
    ||| u == 0x2029
    ||| u == 0x202f
    ||| u == 0x205f
    ||| u == 0x3000
}

/// What splits text into pieces.
#[derive(Clone, Copy, Debug, PartialEq, Eq, Structural)]
pub enum Separator {
    /// One given character.
    Char(char),
    /// Any White_Space character.
    White,
}

pub open spec fn separates(sep: Separator, c: char) -> bool {
    match sep {
        Separator::Char(d) => c == d,
        Separator::White => is_white_space(c),
    }
}

/// Whether `c` separates pieces.
pub fn is_separator(sep: Separator, c: char) -> (r: bool)
    ensures
        r == separates(sep, c),
{
    match sep {
        Separator::Char(d) => c == d,
        Separator::White => {
            let u = c as u32;
            (0x09 <= u && u <= 0x0d) || u == 0x20 || u == 0x85 || u == 0xa0 || u == 0x1680 || (
            0x2000 <= u && u <= 0x200a) || u == 0x2028 || u == 0x2029 || u == 0x202f || u
                == 0x205f || u == 0x3000
        },
    }
}

/// The text between separators, empty pieces included: one more piece than
/// there are separators.
pub open spec fn pieces(s: Seq<char>, sep: Separator) -> Seq<Seq<char>>
    decreases s.len(),
{
    if s.len() == 0 {
        seq![Seq::empty()]
    } else {
        let prev = pieces(s.drop_last(), sep);
        if separates(sep, s.last()) {
            prev.push(Seq::empty())
        } else {
            prev.update(prev.len() - 1, prev.last().push(s.last()))
        }
    }
}

proof fn lemma_pieces_len(s: Seq<char>, sep: Separator)
    ensures
        pieces(s, sep).len() >= 1,
    decreases s.len(),
{
    if s.len() > 0 {
        lemma_pieces_len(s.drop_last(), sep);
    }
}

/// Splits text at every separator.
pub fn split_text(text: &str, sep: Separator) -> (r: Vec<String>)
    ensures
        r@.len() == pieces(text@, sep).len(),
        forall|j: int| 0 <= j < r@.len() ==> (#[trigger] r@[j])@ == pieces(text@, sep)[j],
{
    let n = text.unicode_len();
    let mut done: Vec<String> = Vec::new();
    let mut start: usize = 0;
    let mut i: usize = 0;
    while i < n
        invariant
            n == text@.len(),
            start <= i <= n,
            done@.len() + 1 == pieces(text@.subrange(0, i as int), sep).len(),
            forall|j: int|
                0 <= j < done@.len() ==> (#[trigger] done@[j])@ == pieces(
                    text@.subrange(0, i as int),
                    sep,
                )[j],
            pieces(text@.subrange(0, i as int), sep).last() == text@.subrange(
                start as int,
                i as int,
            ),
        decreases n - i,
    {
        let c = text.get_char(i);
        proof {
            lemma_pieces_len(text@.subrange(0, i as int), sep);
            assert(text@.subrange(0, i + 1).drop_last() =~= text@.subrange(0, i as int));
        }
        if is_separator(sep, c) {
            let piece = text.substring_char(start, i).to_owned();
            done.push(piece);
            start = i + 1;
            i = i + 1;
            assert(text@.subrange(start as int, i as int) =~= Seq::<char>::empty());
        } else {
            i = i + 1;
            assert(text@.subrange(start as int, i as int) =~= text@.subrange(
                start as int,
                i - 1,
            ).push(c));
        }
    }
    let last = text.substring_char(start, n).to_owned();
    done.push(last);
    assert(text@.subrange(0, n as int) =~= text@);
    done
}

/// The non-empty pieces, in order.
pub open spec fn non_empty(ps: Seq<Seq<char>>) -> Seq<Seq<char>>
    decreases ps.len(),
{
    if ps.len() == 0 {
        Seq::empty()
    } else if ps.last().len() == 0 {
        non_empty(ps.drop_last())
    } else {
        non_empty(ps.drop_last()).push(ps.last())
    }
}

/// The whitespace-separated fields of a line.
pub open spec fn fields(line: Seq<char>) -> Seq<Seq<char>> {
    non_empty(pieces(line, Separator::White))
}

/// Splits a line into its whitespace-separated fields.
pub fn split_fields(line: &str) -> (r: Vec<String>)
    ensures
        r@.len() == fields(line@).len(),
        forall|j: int| 0 <= j < r@.len() ==> (#[trigger] r@[j])@ == fields(line@)[j],
{
    let all = split_text(line, Separator::White);
    let ghost ps = pieces(line@, Separator::White);
    let mut out: Vec<String> = Vec::new();
    let mut k: usize = 0;
    while k < all.len()
        invariant
            k <= all@.len(),
            all@.len() == ps.len(),
            forall|j: int| 0 <= j < all@.len() ==> (#[trigger] all@[j])@ == ps[j],
            out@.len() == non_empty(ps.subrange(0, k as int)).len(),
            forall|j: int|
                0 <= j < out@.len() ==> (#[trigger] out@[j])@ == non_empty(
                    ps.subrange(0, k as int),
                )[j],
        decreases all@.len() - k,
    {
        assert(ps.subrange(0, k + 1).drop_last() =~= ps.subrange(0, k as int));
        if all[k].unicode_len() > 0 {
            out.push(all[k].clone());
        }
        k = k + 1;
    }
    assert(ps.subrange(0, all@.len() as int) =~= ps);
    out
}

/// A component written as text: not empty, and neither `.` nor `..`.
pub open spec fn is_normal_text(t: Seq<char>) -> bool {
    t.len() > 0 && t != seq!['.'] && t != seq!['.', '.']
}

/// The action a journal line's first field names.
pub open spec fn word_action(w: Seq<char>) -> Option<JournalAction> {
    if w == action_word(JournalAction::Added) {
        Some(JournalAction::Added)
    } else if w == action_word(JournalAction::Replaced) {
        Some(JournalAction::Replaced)
    } else {
        None
    }
}

/// Each piece of text as UTF-8 bytes.
pub open spec fn encoded_parts(ps: Seq<Seq<char>>) -> Seq<Seq<u8>> {
    ps.map_values(|p: Seq<char>| encode_utf8(p))
}

/// A path field as components: split at `/`, each normal.
pub open spec fn text_path(t: Seq<char>) -> Option<Seq<Seq<u8>>> {
    let ps = pieces(t, Separator::Char('/'));
    if forall|i: int| 0 <= i < ps.len() ==> is_normal_text(#[trigger] ps[i]) {
        Some(encoded_parts(ps))
    } else {
        None
    }
}

/// What a journal line records, if it is well formed: exactly two fields,
/// an action word and a relative path.
pub open spec fn parse_line_spec(line: Seq<char>) -> Option<(Seq<Seq<u8>>, JournalAction)> {
    let f = fields(line);
    if f.len() == 2 && word_action(f[0]) is Some && text_path(f[1]) is Some {
        Some((text_path(f[1])->0, word_action(f[0])->0))
    } else {
        None
    }
}

/// Whether `t` is the text of one of `word`'s characters, in order.
fn text_is(t: &String, word: &str) -> (r: bool)
    ensures
        r == (t@ == word@),
{
    let n = t.as_str().unicode_len();
    let m = word.unicode_len();
    if n != m {
        return false;
    }
    let mut i: usize = 0;
    while i < n
        invariant
            i <= n,
            n == t@.len(),
            m == word@.len(),
            n == m,
            forall|j: int| 0 <= j < i ==> t@[j] == word@[j],
        decreases n - i,
    {
        if t.as_str().get_char(i) != word.get_char(i) {
            return false;
        }
        i = i + 1;
    }
    assert(t@ =~= word@);
    true
}

/// Reads one line of the journal.
pub fn read_journal_line(line: &str) -> (r: Result<(FsPath, JournalAction), ManagerError>)
    ensures
        r is Ok <==> parse_line_spec(line@) is Some,
        r matches Ok(e) ==> parse_line_spec(line@) == Some((e.0@, e.1)),
        r is Err ==> (r->Err_0 matches ManagerError::JournalSyntax { line: l } && l@ == line@),
{
    let f = split_fields(line);
    let syntax = ManagerError::JournalSyntax { line: line.to_owned() };
    if f.len() != 2 {
        return Err(syntax);
    }
    proof {
        reveal_strlit("Add");
        reveal_strlit("Replace");
        assert("Add"@ =~= action_word(JournalAction::Added));
        assert("Replace"@ =~= action_word(JournalAction::Replaced));
    }
    let action = if text_is(&f[0], "Add") {
        JournalAction::Added
    } else if text_is(&f[0], "Replace") {
        JournalAction::Replaced
    } else {
        return Err(syntax);
    };
    let parts = split_text(f[1].as_str(), Separator::Char('/'));
    let ghost ps = pieces(f[1]@, Separator::Char('/'));
    let mut path = FsPath::empty();
    let mut k: usize = 0;
    while k < parts.len()
        invariant
            k <= parts@.len(),
            parts@.len() == ps.len(),
            forall|j: int| 0 <= j < parts@.len() ==> (#[trigger] parts@[j])@ == ps[j],
            forall|j: int| 0 <= j < k ==> is_normal_text(#[trigger] ps[j]),
            path@ == encoded_parts(ps.subrange(0, k as int)),
            syntax matches ManagerError::JournalSyntax { line: l } && l@ == line@,
            f@.len() == 2,
            fields(line@).len() == 2,
            f@[1]@ == fields(line@)[1],
            ps == pieces(f@[1]@, Separator::Char('/')),
        decreases parts@.len() - k,
    {
        let part = &parts[k];
        let len = part.as_str().unicode_len();
        proof {
            reveal_strlit(".");
            reveal_strlit("..");
            assert("."@ =~= seq!['.']);
            assert(".."@ =~= seq!['.', '.']);
        }
        if len == 0 || text_is(part, ".") || text_is(part, "..") {
            assert(!is_normal_text(ps[k as int]));
            assert(text_path(f@[1]@) is None);
            return Err(syntax);
        }
        path.push_part(part.as_str().as_bytes_vec());
        assert(encoded_parts(ps.subrange(0, k + 1)) =~= encoded_parts(
            ps.subrange(0, k as int),
        ).push(encode_utf8(ps[k as int])));
        k = k + 1;
    }
    assert(ps.subrange(0, ps.len() as int) =~= ps);
    assert(text_path(f@[1]@) == Some(path@));
    Ok((path, action))
}

/// The lines of a journal file: the text between newlines, without an
/// empty last line after the final newline.
pub open spec fn journal_text_lines(text: Seq<char>) -> Seq<Seq<char>> {
    let ps = pieces(text, Separator::Char('\n'));
    if ps.last().len() == 0 {
        ps.drop_last()
    } else {
        ps
    }
}

/// An index where key `k` is, if there is one.
pub open spec fn key_index<V>(s: Entries<V>, k: Seq<Seq<u8>>) -> int {
    choose|i: int| key_at(s, k, i)
}

/// `s` with key `k` mapped to `v`: in place if `k` is there, else at the
/// end.
pub open spec fn upsert<V>(s: Entries<V>, k: Seq<Seq<u8>>, v: V) -> Entries<V> {
    if has_key(s, k) {
        s.update(key_index(s, k), (k, v))
    } else {
        s.push((k, v))
    }
}

/// What a journal's lines record, if each is well formed: a later entry
/// for a path overrides an earlier one.
pub open spec fn journal_spec(lines: Seq<Seq<char>>) -> Option<Entries<JournalAction>>
    decreases lines.len(),
{
    if lines.len() == 0 {
        Some(Seq::empty())
    } else {
        match (journal_spec(lines.drop_last()), parse_line_spec(lines.last())) {
            (Some(s), Some(e)) => Some(upsert(s, e.0, e.1)),
            _ => None,
        }
    }
}

pub open spec fn journal_entries(v: Seq<(FsPath, JournalAction)>) -> Entries<JournalAction> {
    v.map_values(|e: (FsPath, JournalAction)| (e.0@, e.1))
}

/// Records `action` for `rel`, replacing an earlier entry for the same
/// path.
fn upsert_entry(entries: &mut Vec<(FsPath, JournalAction)>, rel: FsPath, action: JournalAction)
    requires
        unique_keys(journal_entries(old(entries)@)),
    ensures
        journal_entries(final(entries)@) == upsert(journal_entries(old(entries)@), rel@, action),
        unique_keys(journal_entries(final(entries)@)),
{
    let ghost s = journal_entries(entries@);
    let ghost k = rel@;
    let mut i: usize = 0;
    while i < entries.len()
        invariant
            i <= entries@.len(),
            s == journal_entries(entries@),
            entries@ == old(entries)@,
            unique_keys(s),
            k == rel@,
            forall|j: int| 0 <= j < i ==> s[j].0 != k,
        decreases entries@.len() - i,
    {
        if entries[i].0.same_as(&rel) {
            assert(key_at(s, k, i as int));
            assert(key_at(s, k, key_index(s, k)));
            assert(key_index(s, k) == i);
            entries.set(i, (rel, action));
            assert(journal_entries(entries@) =~= s.update(i as int, (k, action)));
            return ;
        }
        i = i + 1;
    }
    assert(!has_key(s, k));
    entries.push((rel, action));
    assert(journal_entries(entries@) =~= s.push((k, action)));
}

/// Reads the journal's text: every line must be an action and a path.
pub fn read_journal(text: &str) -> (r: Result<Vec<(FsPath, JournalAction)>, ManagerError>)
    ensures
        r is Ok <==> journal_spec(journal_text_lines(text@)) is Some,
        r matches Ok(v) ==> journal_spec(journal_text_lines(text@)) == Some(journal_entries(v@)),
        r matches Ok(v) ==> unique_keys(journal_entries(v@)),
        r is Err ==> (r->Err_0 matches ManagerError::JournalSyntax { line: l } && (exists|i: int|
            0 <= i < journal_text_lines(text@).len() && #[trigger] journal_text_lines(text@)[i]
                == l@ && parse_line_spec(l@) is None)),
{
    let all = split_text(text, Separator::Char('\n'));
    let ghost ps = pieces(text@, Separator::Char('\n'));
    let ghost lines = journal_text_lines(text@);
    proof {
        lemma_pieces_len(text@, Separator::Char('\n'));
    }
    let n = if all[all.len() - 1].as_str().unicode_len() == 0 {
        all.len() - 1
    } else {
        all.len()
    };
    assert(lines.len() == n);
    let mut entries: Vec<(FsPath, JournalAction)> = Vec::new();
    let mut k: usize = 0;
    while k < n
        invariant
            k <= n,
            n == lines.len(),
            lines == journal_text_lines(text@),
            n <= all@.len(),
            forall|j: int| 0 <= j < n ==> (#[trigger] all@[j])@ == lines[j],
            journal_spec(lines.subrange(0, k as int)) == Some(journal_entries(entries@)),
            unique_keys(journal_entries(entries@)),
        decreases n - k,
    {
        assert(lines.subrange(0, k + 1).drop_last() =~= lines.subrange(0, k as int));
        assert(lines.subrange(0, k + 1).last() == lines[k as int]);
        match read_journal_line(all[k].as_str()) {
            Ok((rel, action)) => {
                upsert_entry(&mut entries, rel, action);
            },
            Err(e) => {
                assert(journal_spec(lines.subrange(0, k + 1)) is None);
                proof {
                    lemma_journal_spec_prefix_none(lines, k as int + 1);
                }
                assert(lines.subrange(0, n as int) =~= lines);
                assert(lines[k as int] == all@[k as int]@);
                return Err(e);
            },
        }
        k = k + 1;
    }
    assert(lines.subrange(0, n as int) =~= lines);
    Ok(entries)
}

/// Once a prefix of the lines is malformed, so is the whole.
proof fn lemma_journal_spec_prefix_none(lines: Seq<Seq<char>>, k: int)
    requires
        0 <= k <= lines.len(),
        journal_spec(lines.subrange(0, k)) is None,
    ensures
        journal_spec(lines) is None,
    decreases lines.len() - k,
{
    if k < lines.len() {
        assert(lines.subrange(0, k + 1).drop_last() =~= lines.subrange(0, k));
        lemma_journal_spec_prefix_none(lines, k + 1);
    } else {
        assert(lines.subrange(0, k) =~= lines);
    }
}

/// Text without separators is a single piece.
proof fn lemma_pieces_unbroken(s: Seq<char>, sep: Separator)
    requires
        forall|i: int| 0 <= i < s.len() ==> !separates(sep, #[trigger] s[i]),
    ensures
        pieces(s, sep) == seq![s],
    decreases s.len(),
{
    if s.len() > 0 {
        let rest = s.drop_last();
        assert forall|i: int| 0 <= i < rest.len() implies !separates(sep, #[trigger] rest[i]) by {
            assert(rest[i] == s[i]);
        }
        lemma_pieces_unbroken(rest, sep);
        assert(s.last() == s[s.len() - 1]);
        assert(rest.push(s.last()) =~= s);
        assert(pieces(s, sep) =~= seq![s]);
    } else {
        assert(s =~= Seq::<char>::empty());
        assert(pieces(s, sep) =~= seq![s]);
    }
}

/// Appending text without separators extends the last piece.
proof fn lemma_pieces_extend(s: Seq<char>, t: Seq<char>, sep: Separator)
    requires
        forall|i: int| 0 <= i < t.len() ==> !separates(sep, #[trigger] t[i]),
    ensures
        pieces(s + t, sep) == pieces(s, sep).drop_last().push(pieces(s, sep).last() + t),
    decreases t.len(),
{
    lemma_pieces_len(s, sep);
    if t.len() == 0 {
        assert(s + t =~= s);
        assert(pieces(s, sep).last() + t =~= pieces(s, sep).last());
        assert(pieces(s, sep).drop_last().push(pieces(s, sep).last()) =~= pieces(s, sep));
    } else {
        let t0 = t.drop_last();
        assert forall|i: int| 0 <= i < t0.len() implies !separates(sep, #[trigger] t0[i]) by {
            assert(t0[i] == t[i]);
        }
        lemma_pieces_extend(s, t0, sep);
        assert((s + t).drop_last() =~= s + t0);
        assert((s + t).last() == t[t.len() - 1]);
        assert(pieces(s, sep).last() + t =~= (pieces(s, sep).last() + t0).push(t.last()));
        assert(pieces(s + t, sep) =~= pieces(s, sep).drop_last().push(pieces(s, sep).last() + t));
    }
}

/// Each component's text.
pub open spec fn decoded_parts(rel: Seq<Seq<u8>>) -> Seq<Seq<char>> {
    rel.map_values(|b: Seq<u8>| decode_utf8(b))
}

/// A component's text holds neither whitespace nor `/`.
pub open spec fn is_plain_text(t: Seq<char>) -> bool {
    forall|j: int| 0 <= j < t.len() ==> !is_white_space(#[trigger] t[j]) && t[j] != '/'
}

proof fn lemma_path_text_pieces(rel: Seq<Seq<u8>>)
    requires
        rel.len() > 0,
        forall|i: int| 0 <= i < rel.len() ==> is_plain_text(decode_utf8(#[trigger] rel[i])),
    ensures
        pieces(path_text(rel), Separator::Char('/')) == decoded_parts(rel),
        forall|j: int|
            0 <= j < path_text(rel).len() ==> !is_white_space(#[trigger] path_text(rel)[j]),
    decreases rel.len(),
{
    let sep = Separator::Char('/');
    if rel.len() == 1 {
        let d = decode_utf8(rel[0]);
        assert(is_plain_text(d));
        lemma_pieces_unbroken(d, sep);
        assert(decoded_parts(rel) =~= seq![d]);
    } else {
        let rest = rel.drop_last();
        assert forall|i: int| 0 <= i < rest.len() implies is_plain_text(
            decode_utf8(#[trigger] rest[i]),
        ) by {
            assert(rest[i] == rel[i]);
        }
        lemma_path_text_pieces(rest);
        let d = decode_utf8(rel.last());
        assert(is_plain_text(decode_utf8(rel[rel.len() - 1])));
        let head = path_text(rest) + seq!['/'];
        assert(head =~= path_text(rest).push('/'));
        assert(head.drop_last() =~= path_text(rest));
        assert(pieces(head, sep) == pieces(path_text(rest), sep).push(Seq::empty()));
        lemma_pieces_extend(head, d, sep);
        assert(path_text(rel) == head + d);
        assert(Seq::<char>::empty() + d =~= d);
        assert(decoded_parts(rel) =~= decoded_parts(rest).push(d));
        assert forall|j: int| 0 <= j < path_text(rel).len() implies !is_white_space(
            #[trigger] path_text(rel)[j],
        ) by {
            if j < path_text(rest).len() {
                assert(path_text(rel)[j] == path_text(rest)[j]);
            } else if j > path_text(rest).len() {
                assert(path_text(rel)[j] == d[j - path_text(rest).len() - 1]);
            }
        }
    }
}

/// A journal line written for a file reads back as exactly that one entry,
/// when each component of the file's path is UTF-8 text that is not empty,
/// `.` or `..`, and holds no whitespace and no `/`.
pub proof fn lemma_journal_line_round_trip(action: JournalAction, rel: Seq<Seq<u8>>)
    requires
        rel.len() > 0,
        all_utf8(rel),
        forall|i: int| 0 <= i < rel.len() ==> is_normal_text(decode_utf8(#[trigger] rel[i])),
        forall|i: int| 0 <= i < rel.len() ==> is_plain_text(decode_utf8(#[trigger] rel[i])),
    ensures
        journal_spec(journal_text_lines(journal_line_spec(action, rel))) == Some(
            seq![(rel, action)],
        ),
{
    let w = action_word(action);
    let t = path_text(rel);
    let l = w + seq![' '] + t;
    let text = journal_line_spec(action, rel);
    lemma_path_text_pieces(rel);
    // The path text is not empty: it holds the first component's text.
    assert(t.len() > 0) by {
        assert(decoded_parts(rel)[0].len() > 0);
        if t.len() == 0 {
            assert(t =~= Seq::<char>::empty());
            assert(pieces(t, Separator::Char('/')) == seq![Seq::<char>::empty()]);
            assert(decoded_parts(rel)[0] == pieces(t, Separator::Char('/'))[0]);
        }
    }
    // One line: the text up to the newline.
    assert forall|i: int| 0 <= i < l.len() implies !separates(Separator::Char('\n'), #[trigger] l[i]) by {
        if i > w.len() {
            assert(l[i] == t[i - w.len() - 1]);
        }
    }
    lemma_pieces_unbroken(l, Separator::Char('\n'));
    assert(text =~= l.push('\n'));
    assert(text.drop_last() =~= l);
    assert(journal_text_lines(text) =~= seq![l]);
    // Two fields: the word and the path.
    let head = w.push(' ');
    assert forall|i: int| 0 <= i < w.len() implies !separates(Separator::White, #[trigger] w[i]) by {}
    lemma_pieces_unbroken(w, Separator::White);
    assert(head.drop_last() =~= w);
    assert(pieces(head, Separator::White) == seq![w, Seq::<char>::empty()]);
    lemma_pieces_extend(head, t, Separator::White);
    assert(l =~= head + t);
    assert(Seq::<char>::empty() + t =~= t);
    assert(pieces(l, Separator::White) =~= seq![w, t]);
    assert(seq![w, t].drop_last() =~= seq![w]);
    assert(seq![w].drop_last() =~= Seq::<Seq<char>>::empty());
    assert(w.len() > 0);
    assert(non_empty(seq![w]) == non_empty(Seq::<Seq<char>>::empty()).push(w));
    assert(non_empty(seq![w]) =~= seq![w]);
    assert(non_empty(seq![w, t]) == non_empty(seq![w]).push(t));
    assert(fields(l) =~= seq![w, t]);
    // The path reads back as the same components.
    assert forall|i: int| 0 <= i < rel.len() implies encode_utf8(decode_utf8(#[trigger] rel[i])) == rel[i] by {
        decode_utf8_encode_utf8(rel[i]);
    }
    assert(encoded_parts(decoded_parts(rel)) =~= rel);
    assert(text_path(t) == Some(rel));
    assert(word_action(w) == Some(action));
    assert(parse_line_spec(l) == Some((rel, action)));
    let lines = seq![l];
    assert(lines.drop_last() =~= Seq::<Seq<char>>::empty());
    assert(lines.last() == l);
    assert(journal_spec(lines.drop_last()) == Some(Seq::<(Seq<Seq<u8>>, JournalAction)>::empty()));
    let none = Seq::<(Seq<Seq<u8>>, JournalAction)>::empty();
    assert(!has_key(none, rel));
    assert(upsert(none, rel, action) == none.push((rel, action)));
    assert(none.push((rel, action)) =~= seq![(rel, action)]);
    assert(journal_spec(lines) == Some(upsert(none, rel, action)));
}

} // verus!
