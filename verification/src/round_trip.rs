//! The commit message of a group, read back as edited text, gives the
//! group's description and body lines again; and freely edited body lines
//! are read as what they say, with or without a bullet in front.

use crate::text::{
    byte_len, contains_seq, is_last_match, is_space, is_trimmed, lemma_index_of_char_is,
    lemma_last_match_unique, lemma_trim_is_trimmed, matches_at, split_lines, strip_cr, trim,
};
use crate::types::{
    available_for, base_prefix, body_block, body_line_of, body_lines_of, description_of,
    edited_body, edited_description, header_text, message_text, scope_part, ticket_part,
    CommitType,
};
use vstd::prelude::*;

verus! {

/// `s` holds no line feed.
pub open spec fn on_one_line(s: Seq<char>) -> bool {
    forall|i: int| 0 <= i < s.len() ==> #[trigger] s[i] != '\n'
}

/// An optional text holds no line feed.
pub open spec fn opt_on_one_line(s: Option<Seq<char>>) -> bool {
    match s {
        Some(t) => on_one_line(t),
        None => true,
    }
}

/// A description that reading back leaves as it is: on one line, without
/// white space at either end, and without a colon followed by a space.
pub open spec fn plain_description(description: Seq<char>) -> bool {
    &&& on_one_line(description)
    &&& is_trimmed(description)
    &&& !contains_seq(description, ": "@)
}

/// A body line that reading back leaves as it is: on one line, not empty,
/// and without white space at its end.
pub open spec fn plain_body_line(line: Seq<char>) -> bool {
    &&& line.len() > 0
    &&& on_one_line(line)
    &&& !is_space(line.last())
}

/// The group's message can be read back without loss: scope and ticket are
/// on one line, the description is plain and fits into the header uncut,
/// and every body line is plain.
pub open spec fn reads_back(
    commit_type: CommitType,
    scope: Option<Seq<char>>,
    ticket: Option<Seq<char>>,
    description: Seq<char>,
    lines: Seq<Seq<char>>,
) -> bool {
    &&& opt_on_one_line(scope)
    &&& opt_on_one_line(ticket)
    &&& plain_description(description)
    &&& byte_len(description) <= available_for(
        byte_len(base_prefix(commit_type, scope, ticket)),
    )
    &&& forall|k: int| 0 <= k < lines.len() ==> plain_body_line(#[trigger] lines[k])
}

/// The lines as the body block shows them: each after a dash and a space.
pub open spec fn bullets(lines: Seq<Seq<char>>) -> Seq<Seq<char>> {
    Seq::new(lines.len(), |k: int| "- "@ + lines[k])
}

/// A text on one line that is followed by a line feed is the first line of
/// the whole; the lines of the rest follow.
pub proof fn lemma_first_line(a: Seq<char>, rest: Seq<char>)
    requires
        on_one_line(a),
    ensures
        split_lines(a + "\n"@ + rest) == seq![strip_cr(a)] + split_lines(rest),
{
    reveal_strlit("\n");
    let s = a + "\n"@ + rest;
    assert(s[a.len() as int] == '\n');
    assert forall|j: int| 0 <= j < a.len() implies #[trigger] s[j] != '\n' by {
        assert(s[j] == a[j]);
    }
    lemma_index_of_char_is(s, '\n', a.len() as int);
    assert(s.subrange(0, a.len() as int) == a);
    assert(s.subrange(a.len() as int + 1, s.len() as int) == rest);
}

/// A text on one line that is not empty is its own single line.
pub proof fn lemma_single_line(a: Seq<char>)
    requires
        on_one_line(a),
        a.len() > 0,
    ensures
        split_lines(a) == seq![a],
{
    lemma_index_of_char_is(a, '\n', a.len() as int);
}

/// The lines of a body block, followed by anything, are the bullets of its
/// lines and then the lines of what follows.
pub proof fn lemma_block_lines(lines: Seq<Seq<char>>, rest: Seq<char>)
    requires
        forall|k: int| 0 <= k < lines.len() ==> plain_body_line(#[trigger] lines[k]),
    ensures
        split_lines(body_block(lines) + rest) == bullets(lines) + split_lines(rest),
    decreases lines.len(),
{
    if lines.len() == 0 {
        assert(body_block(lines) + rest == rest);
        assert(bullets(lines) + split_lines(rest) == split_lines(rest));
    } else {
        let front = lines.drop_last();
        let last = lines.last();
        let shown = "- "@ + last;
        let tail = shown + "\n"@ + rest;
        assert(plain_body_line(lines[lines.len() - 1]));
        assert forall|k: int| 0 <= k < front.len() implies plain_body_line(
            #[trigger] front[k],
        ) by {
            assert(front[k] == lines[k]);
        }
        lemma_block_lines(front, tail);
        assert(body_block(lines) + rest == body_block(front) + tail);
        lemma_dash_space();
        assert(on_one_line(shown)) by {
            assert forall|i: int| 0 <= i < shown.len() implies #[trigger] shown[i] != '\n' by {
                if i >= 2 {
                    assert(shown[i] == last[i - 2]);
                }
            }
        }
        lemma_first_line(shown, rest);
        assert(shown.last() == last.last());
        assert(strip_cr(shown) == shown);
        assert(bullets(lines) =~= bullets(front) + seq![shown]);
        assert(bullets(front) + (seq![shown] + split_lines(rest)) == bullets(lines) + split_lines(
            rest,
        ));
    }
}

/// The dash and the space of a bullet: two characters, neither a line feed,
/// the first no white space.
pub proof fn lemma_dash_space()
    ensures
        "- "@.len() == 2,
        "- "@[0] == '-',
        "- "@[1] == ' ',
        !is_space('-'),
{
    reveal_strlit("- ");
}

/// A bullet of a plain body line is read back as that line.
pub proof fn lemma_bullet_read_back(line: Seq<char>)
    requires
        plain_body_line(line),
    ensures
        body_line_of("- "@ + line) == Some(line),
{
    lemma_dash_space();
    let shown = "- "@ + line;
    assert(shown[0] == '-');
    assert(shown.last() == line.last());
    lemma_trim_is_trimmed(shown);
    assert(trim(shown) == shown);
    assert(shown.subrange(0, 2) == "- "@);
    assert(shown.subrange(2, shown.len() as int) == line);
}

/// The bullets of plain body lines are read back as those lines.
pub proof fn lemma_bullets_read_back(lines: Seq<Seq<char>>)
    requires
        forall|k: int| 0 <= k < lines.len() ==> plain_body_line(#[trigger] lines[k]),
    ensures
        body_lines_of(bullets(lines)) == lines,
        body_lines_of(seq![Seq::<char>::empty()] + bullets(lines)) == lines,
    decreases lines.len(),
{
    let blank = seq![Seq::<char>::empty()];
    if lines.len() == 0 {
        assert(bullets(lines) =~= Seq::<Seq<char>>::empty());
        assert(blank + bullets(lines) == blank);
        assert(blank.drop_last() =~= Seq::<Seq<char>>::empty());
        assert(trim(Seq::<char>::empty()) == Seq::<char>::empty());
        assert(body_line_of(blank.last()) is None) by {
            lemma_dash_space();
        }
        assert(body_lines_of(Seq::<Seq<char>>::empty()) == Seq::<Seq<char>>::empty());
        assert(lines =~= Seq::<Seq<char>>::empty());
    } else {
        let front = lines.drop_last();
        assert forall|k: int| 0 <= k < front.len() implies plain_body_line(
            #[trigger] front[k],
        ) by {
            assert(front[k] == lines[k]);
        }
        lemma_bullets_read_back(front);
        assert(plain_body_line(lines[lines.len() - 1]));
        lemma_bullet_read_back(lines.last());
        assert(bullets(lines).drop_last() =~= bullets(front));
        assert(bullets(lines).last() == "- "@ + lines.last());
        assert((blank + bullets(lines)).drop_last() =~= blank + bullets(front));
        assert((blank + bullets(lines)).last() == "- "@ + lines.last());
        assert(front.push(lines.last()) =~= lines);
    }
}

/// No tag of a commit type holds a line feed or begins with white space.
pub proof fn lemma_tag_is_plain(commit_type: CommitType)
    ensures
        on_one_line(commit_type.tag()),
        commit_type.tag().len() > 0,
        !is_space(commit_type.tag()[0]),
{
    reveal_strlit("feat");
    reveal_strlit("fix");
    reveal_strlit("docs");
    reveal_strlit("style");
    reveal_strlit("refactor");
    reveal_strlit("perf");
    reveal_strlit("test");
    reveal_strlit("chore");
    reveal_strlit("ci");
    reveal_strlit("build");
}

/// The prefix of a header with scope and ticket on one line is on one line,
/// begins with the tag, and ends with a colon and a space.
pub proof fn lemma_prefix_is_plain(
    commit_type: CommitType,
    scope: Option<Seq<char>>,
    ticket: Option<Seq<char>>,
)
    requires
        opt_on_one_line(scope),
        opt_on_one_line(ticket),
    ensures
        on_one_line(base_prefix(commit_type, scope, ticket)),
        base_prefix(commit_type, scope, ticket).len() >= 3,
        !is_space(base_prefix(commit_type, scope, ticket)[0]),
        matches_at(
            base_prefix(commit_type, scope, ticket),
            ": "@,
            base_prefix(commit_type, scope, ticket).len() - 2,
        ),
{
    lemma_tag_is_plain(commit_type);
    reveal_strlit("(");
    reveal_strlit(")");
    reveal_strlit(": ");
    let tag = commit_type.tag();
    let sp = scope_part(scope);
    let tp = ticket_part(ticket);
    let p = base_prefix(commit_type, scope, ticket);
    assert(on_one_line(sp)) by {
        match scope {
            Some(s) => {
                assert forall|i: int| 0 <= i < sp.len() implies #[trigger] sp[i] != '\n' by {
                    if 1 <= i <= s.len() {
                        assert(sp[i] == s[i - 1]);
                    }
                }
            },
            None => {},
        }
    }
    assert(on_one_line(tp)) by {
        match ticket {
            Some(t) => {
                assert forall|i: int| 0 <= i < tp.len() implies #[trigger] tp[i] != '\n' by {
                    if i < t.len() {
                        assert(tp[i] == t[i]);
                    }
                }
            },
            None => {},
        }
    }
    let front = tag + sp + ": "@;
    assert(p == front + tp);
    assert forall|i: int| 0 <= i < p.len() implies #[trigger] p[i] != '\n' by {
        if i < tag.len() {
            assert(p[i] == tag[i]);
        } else if i < tag.len() + sp.len() {
            assert(p[i] == sp[i - tag.len()]);
        } else if i < front.len() {
            assert(p[i] == ": "@[i - tag.len() - sp.len()]);
        } else {
            assert(p[i] == tp[i - front.len()]);
        }
    }
    assert(p[0] == tag[0]);
    match ticket {
        Some(t) => {
            assert(p.subrange(p.len() - 2, p.len() as int) == ": "@);
        },
        None => {
            assert(tp.len() == 0);
            assert(p.subrange(p.len() - 2, p.len() as int) == ": "@);
        },
    }
}

/// The header of a group whose message reads back is read back as the
/// group's description.
pub proof fn lemma_header_read_back(
    commit_type: CommitType,
    scope: Option<Seq<char>>,
    ticket: Option<Seq<char>>,
    description: Seq<char>,
)
    requires
        reads_back(commit_type, scope, ticket, description, Seq::empty()),
    ensures
        on_one_line(header_text(commit_type, scope, ticket, description)),
        header_text(commit_type, scope, ticket, description).len() > 0,
        strip_cr(header_text(commit_type, scope, ticket, description)) == header_text(
            commit_type,
            scope,
            ticket,
            description,
        ),
        description_of(header_text(commit_type, scope, ticket, description)) == description,
{
    lemma_prefix_is_plain(commit_type, scope, ticket);
    let p = base_prefix(commit_type, scope, ticket);
    let h = header_text(commit_type, scope, ticket, description);
    assert(h == p + description);
    lemma_description_after_prefix(p, description);
}

/// A plain description is read back from behind a prefix on one line that
/// ends with a colon and a space.
pub proof fn lemma_description_after_prefix(p: Seq<char>, d: Seq<char>)
    requires
        p.len() >= 2,
        on_one_line(p),
        matches_at(p, ": "@, p.len() - 2),
        plain_description(d),
    ensures
        on_one_line(p + d),
        strip_cr(p + d) == p + d,
        description_of(p + d) == d,
{
    let h = p + d;
    let at = p.len() - 2;
    assert(on_one_line(h)) by {
        assert forall|i: int| 0 <= i < h.len() implies #[trigger] h[i] != '\n' by {
            if i < p.len() {
                assert(h[i] == p[i]);
            } else {
                assert(h[i] == d[i - p.len()]);
            }
        }
    }
    assert(strip_cr(h) == h) by {
        reveal_strlit(": ");
        if d.len() > 0 {
            assert(h.last() == d.last());
        } else {
            assert(h =~= p);
            assert(p.subrange(at, at + 2)[1] == p[at + 1]);
        }
    }
    assert(crate::text::last_match(h, ": "@) == Some(at)) by {
        lemma_last_colon_space(p, d);
        lemma_last_match_unique(h, ": "@, at);
    }
    assert(h.subrange(at + 2, h.len() as int) == d);
    assert(trim(d) == d) by {
        lemma_trim_is_trimmed(d);
    }
}

/// Where a text ends with a colon and a space, and what follows holds no
/// colon followed by a space, that is the last one in the whole.
pub proof fn lemma_last_colon_space(p: Seq<char>, d: Seq<char>)
    requires
        p.len() >= 2,
        matches_at(p, ": "@, p.len() - 2),
        !contains_seq(d, ": "@),
    ensures
        is_last_match(p + d, ": "@, p.len() - 2),
{
    reveal_strlit(": ");
    let h = p + d;
    let at = p.len() - 2;
    let sep = ": "@;
    assert(sep.len() == 2 && sep[0] == ':' && sep[1] == ' ');
    assert(p[at + 1] == ' ') by {
        assert(p.subrange(at, at + 2)[1] == sep[1]);
    }
    assert(h.subrange(at, at + 2) =~= p.subrange(at, at + 2));
    assert forall|j: int| at < j implies !matches_at(h, sep, j) by {
        if 0 <= j && j + 2 <= h.len() && h.subrange(j, j + 2) == sep {
            let m = h.subrange(j, j + 2);
            assert(m[0] == ':');
            if j == at + 1 {
                assert(m[0] == h[j]);
                assert(h[j] == p[j]);
            } else {
                assert(d.subrange(j - p.len(), j - p.len() + 2) =~= m);
                assert(matches_at(d, sep, j - p.len()));
            }
        }
    }
}

/// The commit message round-trips through editing: where the message of a
/// group reads back, the text of the message gives the group's description
/// and its body lines again. The description that the group had before
/// plays no part.
pub proof fn lemma_message_round_trip(
    commit_type: CommitType,
    scope: Option<Seq<char>>,
    ticket: Option<Seq<char>>,
    description: Seq<char>,
    lines: Seq<Seq<char>>,
    previous: Seq<char>,
)
    requires
        reads_back(commit_type, scope, ticket, description, lines),
    ensures
        ({
            let text = message_text(
                header_text(commit_type, scope, ticket, description),
                lines,
            );
            &&& edited_description(text, previous) == description
            &&& edited_body(text) == lines
        }),
{
    let h = header_text(commit_type, scope, ticket, description);
    let text = message_text(h, lines);
    lemma_header_read_back(commit_type, scope, ticket, description);
    if lines.len() == 0 {
        lemma_single_line(h);
        assert(split_lines(text).drop_first() =~= Seq::<Seq<char>>::empty());
        assert(lines =~= Seq::<Seq<char>>::empty());
    } else {
        reveal_strlit("\n\n");
        reveal_strlit("\n");
        let block = body_block(lines);
        let rest = "\n"@ + block;
        assert(text =~= h + "\n"@ + rest);
        lemma_first_line(h, rest);
        assert(rest =~= Seq::<char>::empty() + "\n"@ + block);
        lemma_first_line(Seq::<char>::empty(), block);
        lemma_block_lines(lines, Seq::<char>::empty());
        assert(block + Seq::<char>::empty() == block);
        assert(split_lines(Seq::<char>::empty()) == Seq::<Seq<char>>::empty());
        assert(bullets(lines) + Seq::<Seq<char>>::empty() == bullets(lines));
        let all = split_lines(text);
        assert(all == seq![h] + (seq![Seq::<char>::empty()] + bullets(lines)));
        assert(all[0] == h);
        assert(all.drop_first() =~= seq![Seq::<char>::empty()] + bullets(lines));
        lemma_bullets_read_back(lines);
    }
}


/// `s` holds white space only.
pub open spec fn is_blank(s: Seq<char>) -> bool {
    forall|i: int| 0 <= i < s.len() ==> is_space(#[trigger] s[i])
}

/// What a line of edited text can say: not empty, without white space at
/// either end, and without a dash and a space in front.
pub open spec fn plain_content(c: Seq<char>) -> bool {
    &&& c.len() > 0
    &&& is_trimmed(c)
    &&& !crate::text::starts_with(c, "- "@)
}

/// White space in front does not change what is left after trimming it.
pub proof fn lemma_trim_start_skips(before: Seq<char>, t: Seq<char>)
    requires
        is_blank(before),
    ensures
        crate::text::trim_start(before + t) == crate::text::trim_start(t),
    decreases before.len(),
{
    if before.len() == 0 {
        assert(before + t == t);
    } else {
        let s = before + t;
        assert(s[0] == before[0]);
        assert(s.drop_first() == before.drop_first() + t);
        assert forall|i: int| 0 <= i < before.drop_first().len() implies is_space(
            #[trigger] before.drop_first()[i],
        ) by {
            assert(before.drop_first()[i] == before[i + 1]);
        }
        lemma_trim_start_skips(before.drop_first(), t);
    }
}

/// White space at the end does not change what is left after trimming it.
pub proof fn lemma_trim_end_skips(t: Seq<char>, after: Seq<char>)
    requires
        is_blank(after),
    ensures
        crate::text::trim_end(t + after) == crate::text::trim_end(t),
    decreases after.len(),
{
    if after.len() == 0 {
        assert(t + after == t);
    } else {
        let s = t + after;
        assert(s.last() == after.last());
        assert(s.drop_last() == t + after.drop_last());
        assert forall|i: int| 0 <= i < after.drop_last().len() implies is_space(
            #[trigger] after.drop_last()[i],
        ) by {
            assert(after.drop_last()[i] == after[i]);
        }
        lemma_trim_end_skips(t, after.drop_last());
    }
}

/// A trimmed text between white space is what trimming leaves of the whole.
pub proof fn lemma_trim_between(before: Seq<char>, c: Seq<char>, after: Seq<char>)
    requires
        is_blank(before),
        is_blank(after),
        c.len() > 0,
        is_trimmed(c),
    ensures
        trim(before + c + after) == c,
{
    assert(before + c + after == before + (c + after));
    lemma_trim_start_skips(before, c + after);
    assert((c + after)[0] == c[0]);
    lemma_trim_end_skips(c, after);
}

/// A line of white space gives no body line.
pub proof fn lemma_blank_line(line: Seq<char>)
    requires
        is_blank(line),
    ensures
        body_line_of(line) is None,
{
    assert(line + Seq::<char>::empty() == line);
    lemma_trim_start_skips(line, Seq::<char>::empty());
    lemma_dash_space();
}

/// A line that says `c`, with or without a bullet in front and with any
/// white space around it, gives the body line `c`: both `- note` and `note`
/// give `note`.
pub proof fn lemma_content_line(before: Seq<char>, bullet: bool, c: Seq<char>, after: Seq<char>)
    requires
        is_blank(before),
        is_blank(after),
        plain_content(c),
    ensures
        body_line_of(
            before + (if bullet {
                "- "@
            } else {
                Seq::<char>::empty()
            }) + c + after,
        ) == Some(c),
{
    lemma_dash_space();
    if bullet {
        let shown = "- "@ + c;
        assert(shown[0] == '-');
        assert(shown.last() == c.last());
        assert(before + "- "@ + c + after == before + shown + after);
        lemma_trim_between(before, shown, after);
        assert(shown.subrange(0, 2) == "- "@);
        assert(shown.subrange(2, shown.len() as int) == c);
    } else {
        assert(before + Seq::<char>::empty() + c + after == before + c + after);
        lemma_trim_between(before, c, after);
    }
}

/// A line of edited text by its parts: white space, an optional bullet,
/// what the line says if it says anything, and white space again.
pub struct EditedLine {
    /// White space in front
    pub before: Seq<char>,
    /// Whether a dash and a space stand in front of the content
    pub bullet: bool,
    /// What the line says; none for a blank line
    pub content: Option<Seq<char>>,
    /// White space at the end
    pub after: Seq<char>,
}

impl EditedLine {
    /// The parts are what they are meant to be.
    pub open spec fn wf(self) -> bool {
        &&& is_blank(self.before)
        &&& is_blank(self.after)
        &&& match self.content {
            Some(c) => plain_content(c),
            None => true,
        }
    }

    /// The line as it stands in the text.
    pub open spec fn text(self) -> Seq<char> {
        match self.content {
            Some(c) => self.before + (if self.bullet {
                "- "@
            } else {
                Seq::<char>::empty()
            }) + c + self.after,
            None => self.before + self.after,
        }
    }
}

/// The lines as they stand in the text.
pub open spec fn texts_of(lines: Seq<EditedLine>) -> Seq<Seq<char>> {
    Seq::new(lines.len(), |k: int| lines[k].text())
}

/// What the lines say, in order, blank lines left out.
pub open spec fn contents_of(lines: Seq<EditedLine>) -> Seq<Seq<char>>
    decreases lines.len(),
{
    if lines.len() == 0 {
        Seq::empty()
    } else {
        match lines.last().content {
            Some(c) => contents_of(lines.drop_last()).push(c),
            None => contents_of(lines.drop_last()),
        }
    }
}

/// Freely edited body lines are read as what they say: blank lines are
/// dropped, and a line gives the same body line with a bullet in front as
/// without one. No body line that is read begins with a dash and a space,
/// so none is shown with a doubled bullet.
pub proof fn lemma_edited_lines(lines: Seq<EditedLine>)
    requires
        forall|k: int| 0 <= k < lines.len() ==> (#[trigger] lines[k]).wf(),
    ensures
        body_lines_of(texts_of(lines)) == contents_of(lines),
        forall|k: int|
            0 <= k < contents_of(lines).len() ==> !crate::text::starts_with(
                #[trigger] contents_of(lines)[k],
                "- "@,
            ) && !crate::text::starts_with("- "@ + contents_of(lines)[k], "- - "@),
    decreases lines.len(),
{
    if lines.len() == 0 {
        assert(texts_of(lines) =~= Seq::<Seq<char>>::empty());
    } else {
        let front = lines.drop_last();
        let last = lines.last();
        assert forall|k: int| 0 <= k < front.len() implies (#[trigger] front[k]).wf() by {
            assert(front[k] == lines[k]);
        }
        lemma_edited_lines(front);
        assert(lines[lines.len() - 1].wf());
        assert(texts_of(lines).drop_last() =~= texts_of(front));
        assert(texts_of(lines).last() == last.text());
        match last.content {
            Some(c) => {
                lemma_content_line(last.before, last.bullet, c, last.after);
                lemma_no_doubled_bullet(c);
                let all = contents_of(lines);
                assert forall|k: int| 0 <= k < all.len() implies !crate::text::starts_with(
                    #[trigger] all[k],
                    "- "@,
                ) && !crate::text::starts_with("- "@ + all[k], "- - "@) by {
                    if k < all.len() - 1 {
                        assert(all[k] == contents_of(front)[k]);
                    }
                }
            },
            None => {
                assert forall|i: int| 0 <= i < last.text().len() implies is_space(
                    #[trigger] last.text()[i],
                ) by {
                    if i < last.before.len() {
                        assert(last.text()[i] == last.before[i]);
                    } else {
                        assert(last.text()[i] == last.after[i - last.before.len()]);
                    }
                }
                lemma_blank_line(last.text());
            },
        }
    }
}

/// A body line that does not begin with a dash and a space is not shown
/// with a doubled bullet.
pub proof fn lemma_no_doubled_bullet(c: Seq<char>)
    requires
        !crate::text::starts_with(c, "- "@),
    ensures
        !crate::text::starts_with("- "@ + c, "- - "@),
{
    reveal_strlit("- ");
    reveal_strlit("- - ");
    let shown = "- "@ + c;
    if crate::text::starts_with(shown, "- - "@) {
        assert(shown.subrange(0, 4).subrange(2, 4) =~= c.subrange(0, 2));
        assert("- - "@.subrange(2, 4) =~= "- "@);
    }
}

} // verus!
