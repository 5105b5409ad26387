//! Joining the outputs of the components into one status line.
use vstd::prelude::*;
use crate::text::push_char;
use vstd::string::StringExecFns;

verus! {

/// The views of a list of strings.
pub open spec fn string_views(v: Seq<String>) -> Seq<Seq<char>> {
    v.map_values(|s: String| s@)
}

/// Every output followed by one space.
pub open spec fn spaced(outs: Seq<Seq<char>>) -> Seq<char>
    decreases outs.len(),
{
    if outs.len() == 0 {
        seq![]
    } else {
        spaced(outs.drop_last()) + outs.last() + seq![' ']
    }
}

/// The outputs with one space between each two of them.
pub open spec fn joined(outs: Seq<Seq<char>>) -> Seq<char> {
    if outs.len() == 0 {
        seq![]
    } else {
        spaced(outs.drop_last()) + outs.last()
    }
}

/// Writing every output followed by a space and then dropping the last
/// character, as the status line is put together, gives the outputs joined
/// by single spaces; with no outputs both are empty.
pub proof fn law_joined_is_spaced_without_last(outs: Seq<Seq<char>>)
    ensures
        outs.len() == 0 ==> spaced(outs) == Seq::<char>::empty() && joined(outs)
            == Seq::<char>::empty(),
        outs.len() > 0 ==> spaced(outs) == joined(outs).push(' '),
        outs.len() > 0 ==> joined(outs) == spaced(outs).drop_last(),
{
    if outs.len() > 0 {
        assert(spaced(outs) == joined(outs) + seq![' ']);
        assert(joined(outs) + seq![' '] == joined(outs).push(' '));
        assert(spaced(outs).drop_last() =~= joined(outs));
    }
}

/// Every output followed by one space, in order.
pub fn spaced_outputs(outputs: &Vec<String>) -> (r: String)
    ensures
        r@ == spaced(string_views(outputs@)),
{
    let mut r = String::new();
    let mut i: usize = 0;
    while i < outputs.len()
        invariant
            i <= outputs@.len(),
            r@ == spaced(string_views(outputs@).take(i as int)),
        decreases outputs@.len() - i,
    {
        r.append(outputs[i].as_str());
        push_char(&mut r, ' ');
        assert(string_views(outputs@).take(i + 1).drop_last() == string_views(outputs@).take(
            i as int,
        ));
        i = i + 1;
    }
    assert(string_views(outputs@).take(i as int) == string_views(outputs@));
    r
}

/// The outputs joined by single spaces: the text the status line shows.
pub fn join_outputs(outputs: &Vec<String>) -> (r: String)
    ensures
        r@ == joined(string_views(outputs@)),
{
    let mut r = String::new();
    let mut i: usize = 0;
    while i < outputs.len()
        invariant
            i <= outputs@.len(),
            i == 0 ==> r@ == Seq::<char>::empty(),
            i > 0 ==> r@ == joined(string_views(outputs@).take(i as int)),
        decreases outputs@.len() - i,
    {
        let ghost views = string_views(outputs@);
        if i > 0 {
            push_char(&mut r, ' ');
            assert(r@ == spaced(views.take(i as int)));
        }
        r.append(outputs[i].as_str());
        assert(views.take(i + 1).drop_last() == views.take(i as int));
        assert(views.take(i + 1).last() == outputs@[i as int]@);
        assert(r@ == joined(views.take(i + 1)));
        i = i + 1;
    }
    assert(string_views(outputs@).take(i as int) == string_views(outputs@));
    r
}

} // verus!
