//! Literal replacement of a version token in the lines of a file.
//!
//! Reading and writing the file is left to the caller: the functions here
//! take the lines that were read and give back the text to write.

use crate::config::Config;
use crate::text::chars_of;
use crate::text::string_of;
use vstd::prelude::*;
use vstd::string::StringExecFns;

verus! {

/// Why a substitution did not reach the file.
#[derive(Clone, Copy, Debug, PartialEq, Eq, Structural)]
pub enum IoFailure {
    /// The file could not be opened or read.
    Unreadable,
    /// The file could not be created or written.
    Unwritable,
}

impl IoFailure {
    /// The words in which a failure is told to the operator.
    pub open spec fn message(self) -> Seq<char> {
        match self {
            IoFailure::Unreadable => "the file could not be read"@,
            IoFailure::Unwritable => "the file could not be written"@,
        }
    }

    /// The failure in words, to be shown to the operator.
    pub fn describe(&self) -> (words: String)
        ensures
            words@ == self.message(),
    {
        match self {
            IoFailure::Unreadable => "the file could not be read".to_owned(),
            IoFailure::Unwritable => "the file could not be written".to_owned(),
        }
    }
}

/// `token` stands in `text` at index `at`.
pub open spec fn occurs_at(text: Seq<char>, token: Seq<char>, at: int) -> bool {
    &&& 0 <= at
    &&& at + token.len() <= text.len()
    &&& text.subrange(at, at + token.len()) == token
}

/// `token` stands somewhere in `text`.
pub open spec fn contains(text: Seq<char>, token: Seq<char>) -> bool {
    exists|at: int| occurs_at(text, token, at)
}

/// `text` with every occurrence of `token` replaced by `with`, reading from
/// the left and never counting a character for two occurrences. The empty
/// token occurs in front of every character and once more at the end.
pub open spec fn replace_all(text: Seq<char>, token: Seq<char>, with: Seq<char>) -> Seq<char>
    decreases text.len(),
{
    if token.len() == 0 {
        if text.len() == 0 {
            with
        } else {
            with + seq![text[0]] + replace_all(text.drop_first(), token, with)
        }
    } else if occurs_at(text, token, 0) {
        with + replace_all(text.skip(token.len() as int), token, with)
    } else if text.len() == 0 {
        text
    } else {
        seq![text[0]] + replace_all(text.drop_first(), token, with)
    }
}

/// What becomes of one line: a line that holds the token has every
/// occurrence replaced, any other line stays as it is.
pub open spec fn substitute_line(line: Seq<char>, token: Seq<char>, with: Seq<char>) -> Seq<char> {
    if contains(line, token) {
        replace_all(line, token, with)
    } else {
        line
    }
}

/// What becomes of a file's lines: each line by itself, in the same order.
pub open spec fn substitute_lines(
    lines: Seq<Seq<char>>,
    token: Seq<char>,
    with: Seq<char>,
) -> Seq<Seq<char>> {
    Seq::new(lines.len(), |i: int| substitute_line(lines[i], token, with))
}

/// The lines with one line feed between each two of them, and none at the end.
pub open spec fn join_lines(lines: Seq<Seq<char>>) -> Seq<char>
    decreases lines.len(),
{
    if lines.len() == 0 {
        Seq::empty()
    } else if lines.len() == 1 {
        lines[0]
    } else {
        join_lines(lines.drop_last()) + seq!['\n'] + lines.last()
    }
}

/// The text that a substitution writes back to the file.
pub open spec fn updated_content(lines: Seq<Seq<char>>, token: Seq<char>, with: Seq<char>) -> Seq<
    char,
> {
    join_lines(substitute_lines(lines, token, with))
}

/// An occurrence in the text without its first character is one in the text,
/// one place further on.
proof fn lemma_occurrence_shifts(text: Seq<char>, token: Seq<char>, at: int)
    requires
        text.len() > 0,
        occurs_at(text.drop_first(), token, at),
    ensures
        occurs_at(text, token, at + 1),
{
    assert(text.subrange(at + 1, at + 1 + token.len()) =~= text.drop_first().subrange(
        at,
        at + token.len(),
    ));
}

/// Replacing a token that the text does not hold leaves the text as it is,
/// so testing for the token first changes no result.
pub proof fn lemma_replace_absent(text: Seq<char>, token: Seq<char>, with: Seq<char>)
    requires
        !contains(text, token),
    ensures
        replace_all(text, token, with) == text,
        substitute_line(text, token, with) == replace_all(text, token, with),
    decreases text.len(),
{
    assert(!occurs_at(text, token, 0));
    if token.len() == 0 {
        assert(text.subrange(0, 0) =~= token);
    } else if text.len() > 0 {
        let rest = text.drop_first();
        assert forall|at: int| !occurs_at(rest, token, at) by {
            if occurs_at(rest, token, at) {
                lemma_occurrence_shifts(text, token, at);
            }
        }
        lemma_replace_absent(rest, token, with);
        assert(seq![text[0]] + rest =~= text);
    }
}

/// Where the first occurrence of the token ends a text `front + token`, the
/// replacement of `front + token + rest` keeps `front`, puts `with` for the
/// token, and goes on with `rest` in the same way: no occurrence is left out.
pub proof fn lemma_replace_first_occurrence(
    front: Seq<char>,
    rest: Seq<char>,
    token: Seq<char>,
    with: Seq<char>,
)
    requires
        token.len() > 0,
        !contains(front + token.drop_last(), token),
    ensures
        replace_all(front + token + rest, token, with) == front + with + replace_all(
            rest,
            token,
            with,
        ),
    decreases front.len(),
{
    let text = front + token + rest;
    let width = token.len() as int;
    if front.len() == 0 {
        assert(text.subrange(0, width) =~= token);
        assert(text.skip(width) =~= rest);
        assert(with + replace_all(rest, token, with) =~= front + with + replace_all(
            rest,
            token,
            with,
        ));
    } else {
        let guard = front + token.drop_last();
        if occurs_at(text, token, 0) {
            assert(guard.subrange(0, width) =~= text.subrange(0, width));
            assert(occurs_at(guard, token, 0));
        }
        let shorter = front.drop_first();
        assert forall|at: int| !occurs_at(shorter + token.drop_last(), token, at) by {
            if occurs_at(shorter + token.drop_last(), token, at) {
                assert(guard.drop_first() =~= shorter + token.drop_last());
                lemma_occurrence_shifts(guard, token, at);
            }
        }
        lemma_replace_first_occurrence(shorter, rest, token, with);
        assert(text.drop_first() =~= shorter + token + rest);
        assert(text[0] == front[0]);
        assert(seq![front[0]] + (shorter + with + replace_all(rest, token, with)) =~= front + with
            + replace_all(rest, token, with));
    }
}

/// Replacing a token by itself leaves the text as it is.
pub proof fn lemma_replace_by_itself(text: Seq<char>, token: Seq<char>)
    requires
        token.len() > 0,
    ensures
        replace_all(text, token, token) == text,
    decreases text.len(),
{
    if occurs_at(text, token, 0) {
        lemma_replace_by_itself(text.skip(token.len() as int), token);
        assert(text.subrange(0, token.len() as int) + text.skip(token.len() as int) =~= text);
    } else if text.len() > 0 {
        lemma_replace_by_itself(text.drop_first(), token);
        assert(seq![text[0]] + text.drop_first() =~= text);
    }
}

/// Whether `token` stands in `text` at index `at`.
fn matches_at(text: &Vec<char>, token: &Vec<char>, at: usize) -> (found: bool)
    requires
        at + token.len() <= text.len(),
    ensures
        found == occurs_at(text@, token@, at as int),
{
    let mut k: usize = 0;
    while k < token.len()
        invariant
            k <= token.len(),
            at + token.len() <= text.len(),
            forall|j: int| 0 <= j < k ==> text@[at + j] == token@[j],
        decreases token.len() - k,
    {
        if text[at + k] != token[k] {
            proof {
                assert(text@.subrange(at as int, at + token.len())[k as int] == text@[at + k]);
            }
            return false;
        }
        k = k + 1;
    }
    proof {
        assert(text@.subrange(at as int, at + token.len()) =~= token@);
    }
    true
}

/// Whether `token` stands somewhere in `text`.
pub fn contains_token(text: &Vec<char>, token: &Vec<char>) -> (found: bool)
    ensures
        found == contains(text@, token@),
{
    if token.len() == 0 {
        proof {
            assert(text@.subrange(0, 0) =~= token@);
            assert(occurs_at(text@, token@, 0));
        }
        return true;
    }
    if token.len() > text.len() {
        return false;
    }
    let last: usize = text.len() - token.len();
    let mut at: usize = 0;
    while at <= last
        invariant
            last + token.len() == text.len(),
            token.len() > 0,
            at <= last + 1,
            forall|j: int| 0 <= j < at ==> !occurs_at(text@, token@, j),
        decreases last + 1 - at,
    {
        if matches_at(text, token, at) {
            return true;
        }
        at = at + 1;
    }
    false
}

/// Appends all of `piece` to `out`.
fn append_chars(out: &mut Vec<char>, piece: &Vec<char>)
    ensures
        final(out)@ == old(out)@ + piece@,
{
    let mut k: usize = 0;
    while k < piece.len()
        invariant
            k <= piece.len(),
            out@ == old(out)@ + piece@.take(k as int),
        decreases piece.len() - k,
    {
        out.push(piece[k]);
        k = k + 1;
        proof {
            assert(piece@.take(k as int) =~= piece@.take(k - 1).push(piece@[k - 1]));
        }
    }
    proof {
        assert(piece@.take(piece@.len() as int) =~= piece@);
    }
}

/// `text` with every occurrence of `token` replaced by `with`.
pub fn replace_token(text: &Vec<char>, token: &Vec<char>, with: &Vec<char>) -> (replaced: Vec<char>)
    ensures
        replaced@ == replace_all(text@, token@, with@),
{
    let mut out: Vec<char> = Vec::new();
    let mut at: usize = 0;
    proof {
        assert(text@.skip(0) =~= text@);
        assert(out@ + replace_all(text@, token@, with@) =~= replace_all(text@, token@, with@));
    }
    while at < text.len()
        invariant
            at <= text.len(),
            out@ + replace_all(text@.skip(at as int), token@, with@) == replace_all(
                text@,
                token@,
                with@,
            ),
        decreases text.len() - at,
    {
        let ghost rest = text@.skip(at as int);
        let ghost done = out@;
        if token.len() == 0 {
            append_chars(&mut out, with);
            out.push(text[at]);
            proof {
                assert(rest.drop_first() =~= text@.skip(at + 1));
                assert(out@ + replace_all(text@.skip(at + 1), token@, with@) =~= done
                    + replace_all(rest, token@, with@));
            }
            at = at + 1;
        } else if token.len() <= text.len() - at && matches_at(text, token, at) {
            append_chars(&mut out, with);
            proof {
                assert(rest.subrange(0, token@.len() as int) =~= text@.subrange(
                    at as int,
                    at + token@.len(),
                ));
                assert(rest.skip(token@.len() as int) =~= text@.skip(at + token@.len()));
                assert(out@ + replace_all(text@.skip(at + token@.len()), token@, with@) =~= done
                    + replace_all(rest, token@, with@));
            }
            at = at + token.len();
        } else {
            out.push(text[at]);
            proof {
                if token@.len() <= rest.len() {
                    assert(rest.subrange(0, token@.len() as int) =~= text@.subrange(
                        at as int,
                        at + token@.len(),
                    ));
                }
                assert(!occurs_at(rest, token@, 0));
                assert(rest.drop_first() =~= text@.skip(at + 1));
                assert(out@ + replace_all(text@.skip(at + 1), token@, with@) =~= done
                    + replace_all(rest, token@, with@));
            }
            at = at + 1;
        }
    }
    proof {
        assert(text@.skip(at as int) =~= Seq::<char>::empty());
    }
    if token.len() == 0 {
        append_chars(&mut out, with);
    }
    proof {
        assert(out@ =~= replace_all(text@, token@, with@));
    }
    out
}

/// One line of the file after the substitution.
pub fn update_line(line: &str, token: &str, new_version: &str) -> (updated: String)
    ensures
        updated@ == substitute_line(line@, token@, new_version@),
{
    let text = chars_of(line);
    let wanted = chars_of(token);
    if contains_token(&text, &wanted) {
        let with = chars_of(new_version);
        let replaced = replace_token(&text, &wanted, &with);
        string_of(&replaced)
    } else {
        line.to_owned()
    }
}

/// All lines of the file after the substitution, in their order.
pub fn update_lines(lines: &Vec<String>, token: &str, new_version: &str) -> (updated: Vec<String>)
    ensures
        updated.deep_view() == substitute_lines(lines.deep_view(), token@, new_version@),
{
    let mut new_lines: Vec<String> = Vec::new();
    let mut i: usize = 0;
    while i < lines.len()
        invariant
            i <= lines.len(),
            new_lines.len() == i,
            forall|j: int|
                0 <= j < i ==> (#[trigger] new_lines@[j])@ == substitute_line(
                    lines@[j]@,
                    token@,
                    new_version@,
                ),
        decreases lines.len() - i,
    {
        let line_content = update_line(lines[i].as_str(), token, new_version);
        new_lines.push(line_content);
        i = i + 1;
    }
    proof {
        assert(new_lines.deep_view() =~= substitute_lines(
            lines.deep_view(),
            token@,
            new_version@,
        ));
    }
    new_lines
}

/// The lines as one text, with a line feed between each two of them.
pub fn join(lines: &Vec<String>) -> (content: String)
    ensures
        content@ == join_lines(lines.deep_view()),
{
    let mut content = String::new();
    let mut i: usize = 0;
    while i < lines.len()
        invariant
            i <= lines.len(),
            content@ == join_lines(lines.deep_view().take(i as int)),
        decreases lines.len() - i,
    {
        let ghost upto = lines.deep_view().take(i as int + 1);
        proof {
            assert(upto.drop_last() =~= lines.deep_view().take(i as int));
            assert(upto.last() == lines@[i as int]@);
        }
        if i > 0 {
            content.append("\n");
            proof {
                reveal_strlit("\n");
                assert("\n"@ =~= seq!['\n']);
            }
        }
        content.append(lines[i].as_str());
        i = i + 1;
    }
    proof {
        assert(lines.deep_view().take(lines@.len() as int) =~= lines.deep_view());
    }
    content
}

/// The new text of the file of `config`, given the lines that the file holds
/// now: every occurrence of the configuration's previous version becomes
/// `new_version`, and the lines are joined by line feeds.
pub fn update_file_version(config: &Config, new_version: &String, lines: &Vec<String>) -> (content:
    String)
    ensures
        content@ == updated_content(
            lines.deep_view(),
            config@.previous_version_token,
            new_version@,
        ),
{
    let new_lines = update_lines(
        lines,
        config.location.previous_version.as_str(),
        new_version.as_str(),
    );
    join(&new_lines)
}

} // verus!
