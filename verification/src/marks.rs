//! Pending marks: the form that JavaScript sees, and the form of the runtime.
use vstd::prelude::*;

use crate::json::Json;

verus! {

/// A pending mark as JavaScript sees it, with a category `C` and a category profile `P`.
#[derive(Debug)]
pub struct JsPendingMarkSpec<C, P> {
    pub name: String,
    pub category: Option<C>,
    pub category_profile: Option<P>,
    pub data: Option<Json>,
    pub metadata: Option<Json>,
}

/// A pending mark of the runtime, with a category `C` and a category profile `P`.
#[derive(Debug)]
pub struct PendingMarkSpec<C, P> {
    pub name: String,
    pub category: Option<C>,
    pub category_profile: Option<P>,
    pub data: Option<Json>,
    pub metadata: Option<Json>,
}

/// The mark of the runtime with the same fields.
pub open spec fn runtime_mark<C, P>(mark: JsPendingMarkSpec<C, P>) -> PendingMarkSpec<C, P> {
    PendingMarkSpec {
        name: mark.name,
        category: mark.category,
        category_profile: mark.category_profile,
        data: mark.data,
        metadata: mark.metadata,
    }
}

/// The mark for JavaScript with the same fields.
pub open spec fn js_mark<C, P>(mark: PendingMarkSpec<C, P>) -> JsPendingMarkSpec<C, P> {
    JsPendingMarkSpec {
        name: mark.name,
        category: mark.category,
        category_profile: mark.category_profile,
        data: mark.data,
        metadata: mark.metadata,
    }
}

impl<C, P> vstd::std_specs::convert::FromSpecImpl<JsPendingMarkSpec<C, P>> for PendingMarkSpec<C, P> {
    open spec fn obeys_from_spec() -> bool {
        true
    }

    open spec fn from_spec(mark: JsPendingMarkSpec<C, P>) -> Self {
        runtime_mark(mark)
    }
}

impl<C, P> From<JsPendingMarkSpec<C, P>> for PendingMarkSpec<C, P> {
    fn from(mark: JsPendingMarkSpec<C, P>) -> (result: Self) {
        PendingMarkSpec {
            name: mark.name,
            category: mark.category,
            category_profile: mark.category_profile,
            data: mark.data,
            metadata: mark.metadata,
        }
    }
}

impl<C, P> vstd::std_specs::convert::FromSpecImpl<PendingMarkSpec<C, P>> for JsPendingMarkSpec<C, P> {
    open spec fn obeys_from_spec() -> bool {
        true
    }

    open spec fn from_spec(mark: PendingMarkSpec<C, P>) -> Self {
        js_mark(mark)
    }
}

impl<C, P> From<PendingMarkSpec<C, P>> for JsPendingMarkSpec<C, P> {
    fn from(mark: PendingMarkSpec<C, P>) -> (result: Self) {
        JsPendingMarkSpec {
            name: mark.name,
            category: mark.category,
            category_profile: mark.category_profile,
            data: mark.data,
            metadata: mark.metadata,
        }
    }
}

/// A mark comes back unchanged from each of the two forms: they hold the same.
pub proof fn mark_forms_agree<C, P>(js: JsPendingMarkSpec<C, P>, mark: PendingMarkSpec<C, P>)
    ensures
        js_mark(runtime_mark(js)) == js,
        runtime_mark(js_mark(mark)) == mark,
{
}

/// The marks of the runtime, each with the fields of the mark at its place.
pub open spec fn runtime_marks<C, P>(marks: Seq<JsPendingMarkSpec<C, P>>) -> Seq<
    PendingMarkSpec<C, P>,
> {
    Seq::new(marks.len(), |i: int| runtime_mark(marks[i]))
}

/// The marks for JavaScript, each with the fields of the mark at its place.
pub open spec fn js_marks<C, P>(marks: Seq<PendingMarkSpec<C, P>>) -> Seq<
    JsPendingMarkSpec<C, P>,
> {
    Seq::new(marks.len(), |i: int| js_mark(marks[i]))
}

/// A list of marks comes back unchanged from each of the two forms.
pub proof fn mark_lists_agree<C, P>(
    js: Seq<JsPendingMarkSpec<C, P>>,
    marks: Seq<PendingMarkSpec<C, P>>,
)
    ensures
        js_marks(runtime_marks(js)) == js,
        runtime_marks(js_marks(marks)) == marks,
{
    assert(js_marks(runtime_marks(js)) =~= js);
    assert(runtime_marks(js_marks(marks)) =~= marks);
}

/// The marks for JavaScript.
#[must_use]
pub fn js_pending_marks<C, P>(marks: Vec<PendingMarkSpec<C, P>>) -> (result: Vec<
    JsPendingMarkSpec<C, P>,
>)
    ensures
        result@ == js_marks(marks@),
{
    let mut result: Vec<JsPendingMarkSpec<C, P>> = Vec::new();
    for mark in it: marks
        invariant
            it.seq() == marks@,
            result@ == js_marks(marks@).take(it.index() as int),
    {
        result.push(JsPendingMarkSpec::from(mark));
        assert(result@ =~= js_marks(marks@).take(it.index() + 1));
    }
    assert(result@ =~= js_marks(marks@));
    result
}

/// The marks of the runtime.
pub fn pending_marks<C, P>(marks: Vec<JsPendingMarkSpec<C, P>>) -> (result: Vec<
    PendingMarkSpec<C, P>,
>)
    ensures
        result@ == runtime_marks(marks@),
{
    let mut result: Vec<PendingMarkSpec<C, P>> = Vec::new();
    for mark in it: marks
        invariant
            it.seq() == marks@,
            result@ == runtime_marks(marks@).take(it.index() as int),
    {
        result.push(PendingMarkSpec::from(mark));
        assert(result@ =~= runtime_marks(marks@).take(it.index() + 1));
    }
    assert(result@ =~= runtime_marks(marks@));
    result
}

} // verus!
