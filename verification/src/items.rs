//! The two item lists and their flat-file form.
//!
//! An item is a line of text with a status.  On disk each item is one line,
//! a literal status tag and one separating delimiter (`TODO: ` or `DONE: `)
//! followed by the title verbatim.  A malformed line is a data error that
//! the loader reports with its line number; it is never papered over.

use vstd::prelude::*;

verus! {

/// Which list an item belongs to.
#[derive(Copy, Clone, PartialEq, Eq, Structural, Debug)]
pub enum Status {
    Todo,
    Done,
}

/// The other status.
pub open spec fn spec_toggle(s: Status) -> Status {
    match s {
        Status::Todo => Status::Done,
        Status::Done => Status::Todo,
    }
}

impl Status {
    /// Switch between the two panels.
    pub fn toggle(&self) -> (r: Status)
        ensures
            r == spec_toggle(*self),
    {
        match self {
            Status::Todo => Status::Done,
            Status::Done => Status::Todo,
        }
    }
}

/// The tag and delimiter that open a pending item's line.
pub open spec fn todo_prefix() -> Seq<char> {
    seq!['T', 'O', 'D', 'O', ':', ' ']
}

/// The tag and delimiter that open a completed item's line.
pub open spec fn done_prefix() -> Seq<char> {
    seq!['D', 'O', 'N', 'E', ':', ' ']
}

/// The line an item is stored as.
pub open spec fn spec_render_item(status: Status, title: Seq<char>) -> Seq<char> {
    match status {
        Status::Todo => todo_prefix() + title,
        Status::Done => done_prefix() + title,
    }
}

/// What a stored line means: its status and its title, or nothing if the
/// line opens with neither tag.
pub open spec fn spec_parse_item(line: Seq<char>) -> Option<(Status, Seq<char>)> {
    if line.len() >= 6 && line.subrange(0, 6) == todo_prefix() {
        Some((Status::Todo, line.skip(6)))
    } else if line.len() >= 6 && line.subrange(0, 6) == done_prefix() {
        Some((Status::Done, line.skip(6)))
    } else {
        None
    }
}

/// Whether `line` opens with the six characters of `prefix`.
fn has_prefix6(line: &str, c0: char, c1: char, c2: char, c3: char, c4: char, c5: char) -> (r:
    bool)
    ensures
        r == (line@.len() >= 6 && line@.subrange(0, 6) == seq![c0, c1, c2, c3, c4, c5]),
{
    let n = line.unicode_len();
    if n < 6 {
        proof {
            assert(line@.len() < 6);
        }
        return false;
    }
    let r = line.get_char(0) == c0 && line.get_char(1) == c1 && line.get_char(2) == c2
        && line.get_char(3) == c3 && line.get_char(4) == c4 && line.get_char(5) == c5;
    proof {
        if r {
            assert(line@.subrange(0, 6) =~= seq![c0, c1, c2, c3, c4, c5]);
        } else {
            assert(line@.subrange(0, 6) != seq![c0, c1, c2, c3, c4, c5]) by {
                let p = seq![c0, c1, c2, c3, c4, c5];
                if line@.subrange(0, 6) == p {
                    assert(forall|i: int| 0 <= i < 6 ==> line@[i] == #[trigger] p[i]) by {
                        assert(forall|i: int|
                            0 <= i < 6 ==> line@.subrange(0, 6)[i] == #[trigger] line@[i]);
                    }
                }
            }
        }
    }
    r
}

/// Read one stored line back into a status and a title.
pub fn parse_item(line: &str) -> (r: Option<(Status, String)>)
    ensures
        match r {
            Some((s, t)) => spec_parse_item(line@) == Some((s, t@)),
            None => spec_parse_item(line@) is None,
        },
{
    if has_prefix6(line, 'T', 'O', 'D', 'O', ':', ' ') {
        let title = line.substring_char(6, line.unicode_len());
        proof {
            assert(title@ =~= line@.skip(6));
        }
        Some((Status::Todo, title.to_owned()))
    } else if has_prefix6(line, 'D', 'O', 'N', 'E', ':', ' ') {
        let title = line.substring_char(6, line.unicode_len());
        proof {
            assert(title@ =~= line@.skip(6));
        }
        Some((Status::Done, title.to_owned()))
    } else {
        None
    }
}

/// Store one item as its line.
pub fn render_item(status: Status, title: &str) -> (r: String)
    ensures
        r@ == spec_render_item(status, title@),
{
    match status {
        Status::Todo => {
            let line = String::from_str("TODO: ").concat(title);
            proof {
                reveal_strlit("TODO: ");
                assert(line@ =~= todo_prefix() + title@);
            }
            line
        }
        Status::Done => {
            let line = String::from_str("DONE: ").concat(title);
            proof {
                reveal_strlit("DONE: ");
                assert(line@ =~= done_prefix() + title@);
            }
            line
        }
    }
}

/// A stored line reads back as exactly the status and title it was written
/// from, whatever the title holds.
pub proof fn lemma_item_round_trip(status: Status, title: Seq<char>)
    ensures
        spec_parse_item(spec_render_item(status, title)) == Some((status, title)),
{
    let line = spec_render_item(status, title);
    match status {
        Status::Todo => {
            assert(line.subrange(0, 6) =~= todo_prefix());
            assert(line.skip(6) =~= title);
        }
        Status::Done => {
            assert(line.subrange(0, 6) =~= done_prefix());
            assert(line.skip(6) =~= title);
            assert(line.subrange(0, 6) != todo_prefix());
        }
    }
}

/// Every line of `lines` opens with one of the two tags.
pub open spec fn all_lines_ok(lines: Seq<Seq<char>>) -> bool {
    forall|i: int| 0 <= i < lines.len() ==> (#[trigger] spec_parse_item(lines[i])) is Some
}

/// The titles of the lines of `lines` whose status is `status`, in order.
pub open spec fn titles_of(lines: Seq<Seq<char>>, status: Status) -> Seq<Seq<char>>
    decreases lines.len(),
{
    if lines.len() == 0 {
        Seq::empty()
    } else {
        let rest = titles_of(lines.drop_last(), status);
        match spec_parse_item(lines.last()) {
            Some((s, t)) => if s == status {
                rest.push(t)
            } else {
                rest
            },
            None => rest,
        }
    }
}

/// Split stored lines into the pending and the completed titles, in file
/// order, or report the first malformed line's index.
pub fn parse_items(lines: &Vec<String>) -> (r: Result<(Vec<String>, Vec<String>), usize>)
    ensures
        match r {
            Ok((todos, dones)) => all_lines_ok(lines.deep_view()) && todos.deep_view()
                == titles_of(lines.deep_view(), Status::Todo) && dones.deep_view() == titles_of(
                lines.deep_view(),
                Status::Done,
            ),
            Err(i) => i < lines@.len() && spec_parse_item(lines.deep_view()[i as int]) is None
                && (forall|j: int|
                0 <= j < i ==> (#[trigger] spec_parse_item(lines.deep_view()[j])) is Some),
        },
{
    let mut todos: Vec<String> = Vec::new();
    let mut dones: Vec<String> = Vec::new();
    let mut i: usize = 0;
    while i < lines.len()
        invariant
            i <= lines@.len(),
            forall|j: int|
                0 <= j < i ==> (#[trigger] spec_parse_item(lines.deep_view()[j])) is Some,
            todos.deep_view() == titles_of(lines.deep_view().take(i as int), Status::Todo),
            dones.deep_view() == titles_of(lines.deep_view().take(i as int), Status::Done),
        decreases lines@.len() - i,
    {
        match parse_item(lines[i].as_str()) {
            Some((Status::Todo, title)) => {
                todos.push(title);
            }
            Some((Status::Done, title)) => {
                dones.push(title);
            }
            None => {
                return Err(i);
            }
        }
        proof {
            let seen = lines.deep_view().take(i + 1);
            assert(seen.drop_last() =~= lines.deep_view().take(i as int));
            assert(seen.last() == lines.deep_view()[i as int]);
            assert(todos.deep_view() =~= titles_of(seen, Status::Todo));
            assert(dones.deep_view() =~= titles_of(seen, Status::Done));
        }
        i = i + 1;
    }
    proof {
        assert(lines.deep_view().take(i as int) =~= lines.deep_view());
    }
    Ok((todos, dones))
}

/// The stored image of the two lists: every pending title as a `TODO: `
/// line, then every completed title as a `DONE: ` line.
pub open spec fn spec_render_items(todos: Seq<Seq<char>>, dones: Seq<Seq<char>>) -> Seq<
    Seq<char>,
> {
    Seq::new(
        todos.len() + dones.len(),
        |i: int|
            if i < todos.len() {
                spec_render_item(Status::Todo, todos[i])
            } else {
                spec_render_item(Status::Done, dones[i - todos.len()])
            },
    )
}

/// Lay the two lists out as the lines of the flat file.
pub fn render_items(todos: &Vec<String>, dones: &Vec<String>) -> (r: Vec<String>)
    ensures
        r.deep_view() == spec_render_items(todos.deep_view(), dones.deep_view()),
{
    let mut lines: Vec<String> = Vec::new();
    let mut i: usize = 0;
    while i < todos.len()
        invariant
            i <= todos@.len(),
            lines@.len() == i,
            forall|j: int|
                0 <= j < i ==> #[trigger] lines.deep_view()[j] == spec_render_item(
                    Status::Todo,
                    todos.deep_view()[j],
                ),
        decreases todos@.len() - i,
    {
        let ghost prev = lines@;
        let ghost prevdv = lines.deep_view();
        lines.push(render_item(Status::Todo, todos[i].as_str()));
        proof {
            assert forall|j: int| 0 <= j < i + 1 implies #[trigger] lines.deep_view()[j]
                == spec_render_item(Status::Todo, todos.deep_view()[j]) by {
                if j < i {
                    assert(lines.deep_view()[j] == lines@[j].deep_view());
                    assert(lines@[j] == prev[j]);
                    assert(prevdv[j] == prev[j].deep_view());
                }
            }
        }
        i = i + 1;
    }
    let mut k: usize = 0;
    while k < dones.len()
        invariant
            k <= dones@.len(),
            lines@.len() == todos@.len() + k,
            forall|j: int|
                0 <= j < todos@.len() ==> #[trigger] lines.deep_view()[j] == spec_render_item(
                    Status::Todo,
                    todos.deep_view()[j],
                ),
            forall|j: int|
                todos@.len() <= j < todos@.len() + k ==> #[trigger] lines.deep_view()[j]
                    == spec_render_item(
                    Status::Done,
                    dones.deep_view()[j - todos@.len()],
                ),
        decreases dones@.len() - k,
    {
        let ghost prev = lines@;
        let ghost prevdv = lines.deep_view();
        lines.push(render_item(Status::Done, dones[k].as_str()));
        proof {
            assert forall|j: int| 0 <= j < todos@.len() + k + 1 implies #[trigger] lines.deep_view()[j] == (
            if j < todos@.len() {
                spec_render_item(Status::Todo, todos.deep_view()[j])
            } else {
                spec_render_item(Status::Done, dones.deep_view()[j - todos@.len()])
            }) by {
                assert(lines.deep_view()[j] == lines@[j].deep_view());
                if j < todos@.len() + k {
                    assert(lines@[j] == prev[j]);
                    assert(prevdv[j] == prev[j].deep_view());
                }
            }
        }
        k = k + 1;
    }
    proof {
        assert(lines.deep_view() =~~= spec_render_items(todos.deep_view(), dones.deep_view()));
    }
    lines
}

/// Move the selection one item up.
pub fn list_up(list_curr: &mut usize)
    ensures
        *final(list_curr) == if *old(list_curr) > 0 {
            *old(list_curr) - 1
        } else {
            0int
        },
{
    if *list_curr > 0 {
        *list_curr = *list_curr - 1;
    }
}

/// Move the selection one item down, staying inside the list.
pub fn list_down(list: &Vec<String>, list_curr: &mut usize)
    ensures
        *final(list_curr) == if *old(list_curr) + 1 < list@.len() {
            *old(list_curr) + 1
        } else {
            *old(list_curr) as int
        },
{
    if list.len() > 0 && *list_curr < list.len() - 1 {
        *list_curr = *list_curr + 1;
    }
}

/// Move the selection to the first item.
pub fn list_first(list_curr: &mut usize)
    ensures
        *final(list_curr) == 0,
{
    if *list_curr > 0 {
        *list_curr = 0;
    }
}

/// Move the selection to the last item, if there is one.
pub fn list_last(list: &Vec<String>, list_curr: &mut usize)
    ensures
        *final(list_curr) == if list@.len() > 0 {
            list@.len() - 1
        } else {
            *old(list_curr) as int
        },
{
    if list.len() > 0 {
        *list_curr = list.len() - 1;
    }
}

/// Swap the selected item with its predecessor and follow it up.
pub fn list_drag_up(list: &mut Vec<String>, list_curr: &mut usize)
    ensures
        ({
            let l0 = old(list)@;
            let c0 = *old(list_curr);
            if 0 < c0 < l0.len() {
                final(list)@ == l0.update(c0 - 1, l0[c0 as int]).update(c0 as int, l0[c0 - 1])
                    && *final(list_curr) == c0 - 1
            } else {
                final(list)@ == l0 && *final(list_curr) == c0
            }
        }),
{
    if *list_curr > 0 && *list_curr < list.len() {
        let lo = *list_curr - 1;
        swap_adjacent(list, lo);
        *list_curr = lo;
    }
}

/// Swap the selected item with its successor and follow it down.
pub fn list_drag_down(list: &mut Vec<String>, list_curr: &mut usize)
    ensures
        ({
            let l0 = old(list)@;
            let c0 = *old(list_curr);
            if c0 + 1 < l0.len() {
                final(list)@ == l0.update(c0 as int, l0[c0 + 1]).update(c0 + 1, l0[c0 as int])
                    && *final(list_curr) == c0 + 1
            } else {
                final(list)@ == l0 && *final(list_curr) == c0
            }
        }),
{
    if list.len() > 0 && *list_curr < list.len() - 1 {
        swap_adjacent(list, *list_curr);
        *list_curr = *list_curr + 1;
    }
}

/// Exchange two neighbouring items of a list.
fn swap_adjacent(list: &mut Vec<String>, lo: usize)
    requires
        lo + 1 < old(list)@.len(),
    ensures
        final(list)@ == old(list)@.update(lo as int, old(list)@[lo + 1]).update(
            lo + 1,
            old(list)@[lo as int],
        ),
{
    let ghost l0 = list@;
    let n = list.len();
    proof {
        assert(lo + 1 < n);
    }
    let hi = lo + 1;
    let x = list.remove(lo);
    list.insert(hi, x);
    proof {
        assert(list@ =~= l0.update(lo as int, l0[lo + 1]).update(lo + 1, l0[lo as int]));
    }
}

/// Delete the selected item and keep the selection inside the list.
pub fn list_delete(list: &mut Vec<String>, list_curr: &mut usize)
    ensures
        ({
            let l0 = old(list)@;
            let c0 = *old(list_curr);
            if c0 < l0.len() {
                final(list)@ == l0.remove(c0 as int) && *final(list_curr) == if c0 + 1
                    < l0.len() || l0.len() == 1 {
                    c0 as int
                } else {
                    l0.len() - 2
                }
            } else {
                final(list)@ == l0 && *final(list_curr) == c0
            }
        }),
{
    if *list_curr < list.len() {
        let _ = list.remove(*list_curr);
        if *list_curr >= list.len() && list.len() > 0 {
            *list_curr = list.len() - 1;
        }
    }
}

/// Move the selected item of `list_src` to the end of `list_dst` and keep
/// the source selection inside the source list.
pub fn list_transfer(list_dst: &mut Vec<String>, list_src: &mut Vec<String>, list_src_curr: &mut usize)
    ensures
        ({
            let d0 = old(list_dst)@;
            let s0 = old(list_src)@;
            let c0 = *old(list_src_curr);
            if c0 < s0.len() {
                final(list_dst)@ == d0.push(s0[c0 as int]) && final(list_src)@ == s0.remove(
                    c0 as int,
                ) && *final(list_src_curr) == if c0 + 1 < s0.len() || s0.len() == 1 {
                    c0 as int
                } else {
                    s0.len() - 2
                }
            } else {
                final(list_dst)@ == d0 && final(list_src)@ == s0 && *final(list_src_curr) == c0
            }
        }),
{
    if *list_src_curr < list_src.len() {
        let item = list_src.remove(*list_src_curr);
        list_dst.push(item);
        if *list_src_curr >= list_src.len() && list_src.len() > 0 {
            *list_src_curr = list_src.len() - 1;
        }
    }
}

} // verus!
