//! Collating the error messages that the checks of a struct's fields produce.
use vstd::prelude::*;
use vstd::utf8::encode_utf8;
use crate::utils::text::push_str;

verus! {

/// The parts that are not empty, in their order.
pub open spec fn nonempty_parts(parts: Seq<Seq<char>>) -> Seq<Seq<char>>
    decreases parts.len(),
{
    if parts.len() == 0 {
        parts
    } else {
        let init = nonempty_parts(parts.drop_last());
        if parts.last().len() > 0 {
            init.push(parts.last())
        } else {
            init
        }
    }
}

/// The parts joined into one text, one line per part.
pub open spec fn join_lines(parts: Seq<Seq<char>>) -> Seq<char>
    decreases parts.len(),
{
    if parts.len() == 0 {
        Seq::empty()
    } else if parts.len() == 1 {
        parts[0]
    } else {
        join_lines(parts.drop_last()) + seq!['\n'] + parts.last()
    }
}

/// The errors of each field joined line by line, leaving out empty ones, and
/// the fields' texts joined in turn, leaving out fields without errors.
pub open spec fn collated(field_errors: Seq<Seq<Seq<char>>>) -> Seq<char> {
    join_lines(nonempty_parts(field_errors.map_values(|f: Seq<Seq<char>>| join_lines(nonempty_parts(f)))))
}

/// Appends `part` as the next line of `acc`, which holds the lines so far;
/// `first` says whether there are none yet.
fn push_line(acc: &mut String, part: &String, first: bool)
    requires
        first ==> old(acc)@.len() == 0,
    ensures
        first ==> final(acc)@ == part@,
        !first ==> final(acc)@ == old(acc)@ + seq!['\n'] + part@,
{
    if !first {
        push_str(acc, "\n");
        proof {
            reveal_strlit("\n");
        }
    }
    push_str(acc, part.as_str());
}

/// The errors of one field joined line by line, leaving out empty ones.
fn join_nonempty(errors: &Vec<String>) -> (r: String)
    ensures
        r@ == join_lines(nonempty_parts(errors.deep_view())),
{
    let ghost all = errors.deep_view();
    let mut acc = String::new();
    let mut any = false;
    let mut i: usize = 0;
    while i < errors.len()
        invariant
            i <= errors.len(),
            all == errors.deep_view(),
            all.len() == errors.len(),
            acc@ == join_lines(nonempty_parts(all.take(i as int))),
            any <==> nonempty_parts(all.take(i as int)).len() > 0,
        decreases errors.len() - i,
    {
        let part = &errors[i];
        assert(all.take(i + 1).drop_last() =~= all.take(i as int));
        assert(all.take(i + 1).last() == part@);
        if !part.as_str().is_empty() {
            assert(nonempty_parts(all.take(i as int)).push(part@).drop_last() =~= nonempty_parts(all.take(i as int)));
            push_line(&mut acc, part, !any);
            any = true;
        }
        i = i + 1;
    }
    assert(all.take(i as int) =~= all);
    acc
}

/// Collates the fields' errors into one message: every field's non-empty
/// errors joined line by line, then every field with errors joined line by
/// line. There is a message only when it holds more than one byte.
pub fn collate_errors(field_errors: Vec<Vec<String>>) -> (r: Option<String>)
    ensures
        r is Some <==> encode_utf8(collated(field_errors.deep_view())).len() > 1,
        r matches Some(m) ==> m@ == collated(field_errors.deep_view()),
{
    let ghost all = field_errors.deep_view();
    let ghost joined = all.map_values(|f: Seq<Seq<char>>| join_lines(nonempty_parts(f)));
    let mut acc = String::new();
    let mut any = false;
    let mut i: usize = 0;
    while i < field_errors.len()
        invariant
            i <= field_errors.len(),
            all == field_errors.deep_view(),
            all.len() == field_errors.len(),
            joined == all.map_values(|f: Seq<Seq<char>>| join_lines(nonempty_parts(f))),
            acc@ == join_lines(nonempty_parts(joined.take(i as int))),
            any <==> nonempty_parts(joined.take(i as int)).len() > 0,
        decreases field_errors.len() - i,
    {
        let part = join_nonempty(&field_errors[i]);
        assert(joined.take(i + 1).drop_last() =~= joined.take(i as int));
        assert(joined.take(i + 1).last() == part@);
        if !part.as_str().is_empty() {
            assert(nonempty_parts(joined.take(i as int)).push(part@).drop_last() =~= nonempty_parts(joined.take(i as int)));
            push_line(&mut acc, &part, !any);
            any = true;
        }
        i = i + 1;
    }
    assert(joined.take(i as int) =~= joined);
    if acc.as_str().as_bytes().len() > 1 {
        Some(acc)
    } else {
        None
    }
}

} // verus!
