use vstd::prelude::*;
use crate::tag_map::TagMap;
use crate::text::{blank_char, chars_of, contains_chars, contains_seq, is_blank_char, string_from_chars};

verus! {

/// Why metrics could not be filtered.
pub enum ServiceError {
    /// The requested tag has no entry in the tag map; holds the tag.
    UnknownTag(String),
}

impl ServiceError {
    /// A human-readable account of the error.
    pub fn message(&self) -> (r: String)
        ensures
            match self {
                ServiceError::UnknownTag(tag) => r@ == "No matched services for tag \""@ + tag@
                    + "\""@,
            },
    {
        match self {
            ServiceError::UnknownTag(tag) => {
                let mut r = String::from_str("No matched services for tag \"");
                r.append(tag.as_str());
                r.append("\"");
                r
            },
        }
    }
}

/// The lines of `text`, split at each newline; `k` newlines give `k + 1` lines.
pub open spec fn split_lines(text: Seq<char>) -> Seq<Seq<char>>
    decreases text.len(),
{
    if text.len() == 0 {
        seq![seq![]]
    } else {
        let before = split_lines(text.drop_last());
        if text.last() == '\n' {
            before.push(seq![])
        } else {
            before.update(before.len() - 1, before.last().push(text.last()))
        }
    }
}

/// The lines joined with a newline between each two.
pub open spec fn join_lines(lines: Seq<Seq<char>>) -> Seq<char>
    decreases lines.len(),
{
    if lines.len() == 0 {
        seq![]
    } else if lines.len() == 1 {
        lines[0]
    } else {
        join_lines(lines.drop_last()) + seq!['\n'] + lines.last()
    }
}

/// A comment or meta line (`#` first), or a line of white space alone.
pub open spec fn passes_always(line: Seq<char>) -> bool {
    (line.len() > 0 && line[0] == '#') || forall|i: int| 0 <= i < line.len() ==> blank_char(
        #[trigger] line[i],
    )
}

/// The label text that marks a sample line as belonging to monitor `name`.
pub open spec fn marker(name: Seq<char>) -> Seq<char> {
    "monitor_name=\""@ + name + "\","@
}

/// Whether `line` is kept when filtering for a tag with members `members`.
pub open spec fn keeps_line(line: Seq<char>, members: Seq<Seq<char>>) -> bool {
    passes_always(line) || exists|k: int|
        0 <= k < members.len() && contains_seq(line, #[trigger] marker(members[k]))
}

/// The lines that filtering keeps, in their order.
pub open spec fn kept_lines(lines: Seq<Seq<char>>, members: Seq<Seq<char>>) -> Seq<Seq<char>>
    decreases lines.len(),
{
    if lines.len() == 0 {
        seq![]
    } else {
        let before = kept_lines(lines.drop_last(), members);
        if keeps_line(lines.last(), members) {
            before.push(lines.last())
        } else {
            before
        }
    }
}

/// `text` filtered for a tag with members `members`.
pub open spec fn filtered_text(text: Seq<char>, members: Seq<Seq<char>>) -> Seq<char> {
    join_lines(kept_lines(split_lines(text), members))
}

/// The marker of `name`.
fn marker_of(name: &String) -> (r: Vec<char>)
    ensures
        r@ == marker(name@),
{
    let mut r = chars_of("monitor_name=\"");
    let mut n = chars_of(name.as_str());
    let mut tail = chars_of("\",");
    r.append(&mut n);
    r.append(&mut tail);
    r
}

/// Whether `line` is a comment or meta line, or white space alone.
fn is_passthrough(line: &Vec<char>) -> (r: bool)
    ensures
        r == passes_always(line@),
{
    if line.len() > 0 && line[0] == '#' {
        return true;
    }
    let mut i: usize = 0;
    while i < line.len()
        invariant
            i <= line.len(),
            forall|x: int| 0 <= x < i ==> blank_char(#[trigger] line@[x]),
            !(line@.len() > 0 && line@[0] == '#'),
        decreases line.len() - i,
    {
        if !is_blank_char(line[i]) {
            return false;
        }
        i = i + 1;
    }
    true
}

/// Whether `line` is kept, given the markers of the tag's members.
fn keeps(line: &Vec<char>, markers: &Vec<Vec<char>>, members: Ghost<Seq<Seq<char>>>) -> (r: bool)
    requires
        markers.len() == members@.len(),
        forall|k: int| 0 <= k < markers.len() ==> #[trigger] markers[k]@ == marker(members@[k]),
    ensures
        r == keeps_line(line@, members@),
{
    if is_passthrough(line) {
        return true;
    }
    let mut k: usize = 0;
    while k < markers.len()
        invariant
            k <= markers.len(),
            markers.len() == members@.len(),
            forall|x: int| 0 <= x < markers.len() ==> #[trigger] markers[x]@ == marker(members@[x]),
            forall|x: int| 0 <= x < k ==> !contains_seq(line@, #[trigger] marker(members@[x])),
        decreases markers.len() - k,
    {
        if contains_chars(line, &markers[k]) {
            return true;
        }
        k = k + 1;
    }
    false
}

/// Keeps the lines of `metrics` that belong to `passed_tag`: comment, meta and blank
/// lines always, and a sample line when it holds `monitor_name="<name>",` for a
/// member `<name>` of the tag. Fails with `UnknownTag` when the map lacks the tag.
pub fn filter_metrics(metrics: String, passed_tag: String, tag_map: TagMap) -> (r: Result<
    String,
    ServiceError,
>)
    requires
        tag_map.wf(),
    ensures
        r is Err <==> !tag_map@.contains_key(passed_tag@),
        match r {
            Ok(out) => tag_map@.contains_key(passed_tag@) && out@ == filtered_text(
                metrics@,
                tag_map@[passed_tag@],
            ),
            Err(ServiceError::UnknownTag(tag)) => !tag_map@.contains_key(passed_tag@) && tag@
                == passed_tag@,
        },
{
    let members = match tag_map.get(&passed_tag) {
        Some(members) => members,
        None => {
            return Err(ServiceError::UnknownTag(passed_tag));
        },
    };
    let ghost names = members.deep_view();
    let mut markers: Vec<Vec<char>> = Vec::new();
    for k in 0..members.len()
        invariant
            names == members.deep_view(),
            markers.len() == k,
            forall|x: int| 0 <= x < k ==> #[trigger] markers[x]@ == marker(names[x]),
    {
        markers.push(marker_of(&members[k]));
    }
    let text = chars_of(metrics.as_str());
    let mut out: Vec<char> = Vec::new();
    let mut any = false;
    let mut line: Vec<char> = Vec::new();
    let ghost mut done: Seq<Seq<char>> = seq![];
    for i in 0..text.len()
        invariant
            markers.len() == names.len(),
            forall|x: int| 0 <= x < markers.len() ==> #[trigger] markers[x]@ == marker(names[x]),
            split_lines(text@.take(i as int)) == done.push(line@),
            out@ == join_lines(kept_lines(done, names)),
            any == (kept_lines(done, names).len() > 0),
    {
        let c = text[i];
        proof {
            assert(text@.take(i + 1).drop_last() =~= text@.take(i as int));
            assert(text@.take(i + 1).last() == c);
        }
        if c == '\n' {
            let ghost finished = line@;
            emit_line(&mut out, &mut any, line, &markers, Ghost(names), Ghost(done));
            proof {
                done = done.push(finished);
            }
            line = Vec::new();
            proof {
                assert(line@ =~= seq![]);
            }
        } else {
            proof {
                let ls = done.push(line@);
                assert(ls.update(ls.len() - 1, ls.last().push(c)) =~= done.push(line@.push(c)));
            }
            line.push(c);
        }
    }
    proof {
        assert(text@.take(text@.len() as int) =~= text@);
    }
    let ghost finished = line@;
    emit_line(&mut out, &mut any, line, &markers, Ghost(names), Ghost(done));
    proof {
        assert(split_lines(text@) == done.push(finished));
    }
    Ok(string_from_chars(&out))
}

/// Adds `line` to the output when the filter keeps it.
fn emit_line(
    out: &mut Vec<char>,
    any: &mut bool,
    line: Vec<char>,
    markers: &Vec<Vec<char>>,
    names: Ghost<Seq<Seq<char>>>,
    done: Ghost<Seq<Seq<char>>>,
)
    requires
        markers.len() == names@.len(),
        forall|x: int| 0 <= x < markers.len() ==> #[trigger] markers[x]@ == marker(names@[x]),
        old(out)@ == join_lines(kept_lines(done@, names@)),
        *old(any) == (kept_lines(done@, names@).len() > 0),
    ensures
        final(out)@ == join_lines(kept_lines(done@.push(line@), names@)),
        *final(any) == (kept_lines(done@.push(line@), names@).len() > 0),
{
    let ghost ls = done@.push(line@);
    proof {
        assert(ls.drop_last() =~= done@);
    }
    if keeps(&line, markers, names) {
        let ghost kept = kept_lines(done@, names@);
        proof {
            let k2 = kept.push(line@);
            assert(k2.drop_last() =~= kept);
            if kept.len() > 0 {
                assert(join_lines(k2) == join_lines(kept) + seq!['\n'] + line@);
            }
        }
        if *any {
            out.push('\n');
        }
        let mut moved = line;
        let ghost l = moved@;
        out.append(&mut moved);
        *any = true;
        proof {
            if kept.len() > 0 {
                assert(out@ =~= join_lines(kept) + seq!['\n'] + l);
            } else {
                assert(out@ =~= l);
            }
        }
    }
}

/// Whether no line of `lines` holds a newline.
pub open spec fn single_lines(lines: Seq<Seq<char>>) -> bool {
    forall|i: int, j: int| 0 <= i < lines.len() && 0 <= j < lines[i].len() ==> #[trigger] lines[i][j] != '\n'
}

proof fn lemma_split_single(text: Seq<char>)
    ensures
        single_lines(split_lines(text)),
        split_lines(text).len() >= 1,
    decreases text.len(),
{
    if text.len() > 0 {
        lemma_split_single(text.drop_last());
        let before = split_lines(text.drop_last());
        if text.last() != '\n' {
            let l = before.last().push(text.last());
            let after = before.update(before.len() - 1, l);
            assert forall|i: int, j: int| 0 <= i < after.len() && 0 <= j < after[i].len() implies #[trigger] after[i][j] != '\n' by {
                if i == before.len() - 1 {
                    if j < before.last().len() {
                        assert(before[i][j] != '\n');
                    }
                } else {
                    assert(before[i][j] != '\n');
                }
            }
        } else {
            let after = before.push(seq![]);
            assert forall|i: int, j: int| 0 <= i < after.len() && 0 <= j < after[i].len() implies #[trigger] after[i][j] != '\n' by {
                assert(before[i][j] != '\n');
            }
        }
    }
}

/// Appending text without a newline extends the last line.
proof fn lemma_split_extend(a: Seq<char>, b: Seq<char>)
    requires
        forall|j: int| 0 <= j < b.len() ==> b[j] != '\n',
    ensures
        split_lines(a + b) == split_lines(a).update(
            split_lines(a).len() - 1,
            split_lines(a).last() + b,
        ),
    decreases b.len(),
{
    lemma_split_single(a);
    if b.len() == 0 {
        assert(a + b =~= a);
        assert(split_lines(a).last() + b =~= split_lines(a).last());
        assert(split_lines(a).update(split_lines(a).len() - 1, split_lines(a).last()) =~= split_lines(a));
    } else {
        let b0 = b.drop_last();
        lemma_split_extend(a, b0);
        assert((a + b).drop_last() =~= a + b0);
        assert((a + b).last() == b.last());
        lemma_split_single(a + b0);
        assert(split_lines(a).last() + b0 + seq![b.last()] =~= split_lines(a).last() + b);
        assert((split_lines(a).last() + b0).push(b.last()) =~= split_lines(a).last() + b);
        assert(split_lines(a + b) =~= split_lines(a).update(split_lines(a).len() - 1, split_lines(a).last() + b));
    }
}

/// Splitting undoes joining, for a non-empty list of lines without newlines.
proof fn lemma_split_join(lines: Seq<Seq<char>>)
    requires
        lines.len() >= 1,
        single_lines(lines),
    ensures
        split_lines(join_lines(lines)) == lines,
    decreases lines.len(),
{
    if lines.len() == 1 {
        assert forall|j: int| 0 <= j < lines[0].len() implies lines[0][j] != '\n' by {
            assert(lines[0][j] != '\n');
        }
        lemma_split_extend(seq![], lines[0]);
        assert(seq![] + lines[0] =~= lines[0]);
        assert(split_lines(seq![]) == seq![Seq::<char>::empty()]);
        assert(seq![Seq::<char>::empty()].update(0, Seq::<char>::empty() + lines[0]) =~= lines);
    } else {
        let pre = lines.drop_last();
        assert forall|i: int, j: int| 0 <= i < pre.len() && 0 <= j < pre[i].len() implies #[trigger] pre[i][j] != '\n' by {
            assert(lines[i][j] != '\n');
        }
        lemma_split_join(pre);
        let a = join_lines(pre) + seq!['\n'];
        assert(a.drop_last() =~= join_lines(pre));
        assert(split_lines(a) == pre.push(seq![]));
        assert forall|j: int| 0 <= j < lines.last().len() implies lines.last()[j] != '\n' by {
            assert(lines[lines.len() - 1][j] != '\n');
        }
        lemma_split_extend(a, lines.last());
        assert(Seq::<char>::empty() + lines.last() =~= lines.last());
        assert(pre.push(seq![]).update(pre.len() as int, Seq::<char>::empty() + lines.last()) =~= lines);
    }
}

/// Each kept line is a line of the input and is kept by the filter; nothing new appears.
proof fn lemma_kept_lines(lines: Seq<Seq<char>>, members: Seq<Seq<char>>)
    ensures
        forall|i: int| 0 <= i < kept_lines(lines, members).len() ==> keeps_line(#[trigger] kept_lines(lines, members)[i], members),
        forall|i: int| 0 <= i < kept_lines(lines, members).len() ==> lines.contains(#[trigger] kept_lines(lines, members)[i]),
        kept_lines(kept_lines(lines, members), members) == kept_lines(lines, members),
    decreases lines.len(),
{
    if lines.len() > 0 {
        let pre = lines.drop_last();
        lemma_kept_lines(pre, members);
        let k = kept_lines(lines, members);
        assert forall|i: int| 0 <= i < k.len() implies lines.contains(#[trigger] k[i]) by {
            if i < kept_lines(pre, members).len() {
                let x = kept_lines(pre, members)[i];
                let w = choose|w: int| 0 <= w < pre.len() && pre[w] == x;
                assert(lines[w] == x);
            } else {
                assert(lines[lines.len() - 1] == k[i]);
            }
        }
        if keeps_line(lines.last(), members) {
            assert(k.drop_last() =~= kept_lines(pre, members));
        }
    }
}

/// Filtering what filtering produced, for the same members, changes nothing.
pub proof fn lemma_filter_idempotent(text: Seq<char>, members: Seq<Seq<char>>)
    ensures
        filtered_text(filtered_text(text, members), members) == filtered_text(text, members),
{
    let lines = split_lines(text);
    let kept = kept_lines(lines, members);
    lemma_split_single(text);
    lemma_kept_lines(lines, members);
    if kept.len() == 0 {
        assert(join_lines(kept) == Seq::<char>::empty());
        assert(split_lines(Seq::<char>::empty()) == seq![Seq::<char>::empty()]);
        let one = seq![Seq::<char>::empty()];
        assert(one.drop_last() =~= Seq::<Seq<char>>::empty());
        assert(passes_always(one.last()));
        assert(kept_lines(one, members) == seq![Seq::<char>::empty()]);
    } else {
        assert forall|i: int, j: int| 0 <= i < kept.len() && 0 <= j < kept[i].len() implies #[trigger] kept[i][j] != '\n' by {
            let w = choose|w: int| 0 <= w < lines.len() && lines[w] == kept[i];
            assert(lines[w][j] != '\n');
        }
        lemma_split_join(kept);
    }
}

/// Filtering for a tag with no members keeps exactly the comment, meta and blank
/// lines of the text, in their order.
pub proof fn lemma_filter_no_members(text: Seq<char>)
    ensures
        kept_lines(split_lines(text), seq![]) == split_lines(text).filter(|l: Seq<char>| passes_always(l)),
        filtered_text(text, seq![]) == join_lines(split_lines(text).filter(|l: Seq<char>| passes_always(l))),
{
    lemma_kept_no_members(split_lines(text));
}

proof fn lemma_kept_no_members(lines: Seq<Seq<char>>)
    ensures
        kept_lines(lines, seq![]) == lines.filter(|l: Seq<char>| passes_always(l)),
    decreases lines.len(),
{
    reveal(Seq::filter);
    if lines.len() > 0 {
        lemma_kept_no_members(lines.drop_last());
        assert(keeps_line(lines.last(), seq![]) == passes_always(lines.last()));
    }
}

} // verus!
