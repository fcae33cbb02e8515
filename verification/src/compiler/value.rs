//! The values that a program computes with.

use vstd::prelude::*;
use vstd::string::StrSliceExecFns;
use std::sync::Arc;
use std::rc::Rc;
use crate::compiler::function::FunctionReference;
use crate::compiler::function::FunctionView;

verus! {

/// A class by its name.
#[derive(Clone, Debug, PartialEq)]
pub struct ClassReference {
    pub name: String,
}

/// A value. Values are not changed once they are made.
#[derive(Clone, Debug, PartialEq)]
pub enum BramaPrimative {
    Empty,
    Bool(bool),
    Integer(i64),
    /// A number with a fractional part, held as a decimal spelling. What
    /// needs its numeric value is the host's work.
    Double(String),
    Text(String),
    List(Vec<VmObject>),
    Function(Rc<FunctionReference>),
    Class(ClassReference),
}

/// A shared, immutable value: copies point at one allocation.
#[derive(Clone, Debug, PartialEq)]
pub struct VmObject {
    pub value: Arc<BramaPrimative>,
}

/// A value as a mathematical tree.
pub enum PrimativeView {
    Empty,
    Bool(bool),
    Integer(i64),
    Double(Seq<char>),
    Text(Seq<char>),
    List(Seq<PrimativeView>),
    Function(FunctionView),
    Class(Seq<char>),
}

/// The tree that a value is.
pub open spec fn view_of(value: BramaPrimative) -> PrimativeView
    decreases value,
{
    match value {
        BramaPrimative::Empty => PrimativeView::Empty,
        BramaPrimative::Bool(flag) => PrimativeView::Bool(flag),
        BramaPrimative::Integer(number) => PrimativeView::Integer(number),
        BramaPrimative::Double(digits) => PrimativeView::Double(digits@),
        BramaPrimative::Text(content) => PrimativeView::Text(content@),
        BramaPrimative::List(items) => PrimativeView::List(
            Seq::new(
                items@.len(),
                |i: int|
                    if 0 <= i < items@.len() {
                        view_of(*items[i].value)
                    } else {
                        PrimativeView::Empty
                    },
            ),
        ),
        BramaPrimative::Function(reference) => PrimativeView::Function(reference@),
        BramaPrimative::Class(class) => PrimativeView::Class(class.name@),
    }
}

impl View for BramaPrimative {
    type V = PrimativeView;

    open spec fn view(&self) -> PrimativeView {
        view_of(*self)
    }
}

impl View for VmObject {
    type V = PrimativeView;

    open spec fn view(&self) -> PrimativeView {
        (*self.value)@
    }
}

/// The views of a sequence of values, one for one.
pub open spec fn object_views(objects: Seq<VmObject>) -> Seq<PrimativeView> {
    objects.map_values(|object: VmObject| object@)
}

/// `Arc::clone` of the standard library: one more pointer to the same
/// allocation, so the value behind it is the one behind the pointer that is
/// cloned.
#[verifier::external_body]
pub(crate) fn share(value: &Arc<BramaPrimative>) -> (shared: Arc<BramaPrimative>)
    ensures
        shared == *value,
{
    value.clone()
}

impl VmObject {
    /// A handle on a value.
    pub fn convert(value: Arc<BramaPrimative>) -> (object: VmObject)
        ensures
            object.value == value,
    {
        VmObject { value }
    }

    /// The value behind the handle.
    pub fn deref(&self) -> (value: Arc<BramaPrimative>)
        ensures
            value == self.value,
    {
        share(&self.value)
    }

    /// One more handle on the same value.
    pub fn copy(&self) -> (object: VmObject)
        ensures
            object == *self,
    {
        VmObject { value: share(&self.value) }
    }

    /// A fresh value.
    pub fn from(value: BramaPrimative) -> (object: VmObject)
        ensures
            *object.value == value,
    {
        VmObject { value: Arc::new(value) }
    }
}

/// Whether a decimal spelling writes a number above zero: it is `inf`, or it
/// has no leading minus sign and a digit other than `0` stands before any
/// exponent mark.
pub open spec fn spells_positive(digits: Seq<char>) -> bool {
    digits == "inf"@ || (digits.len() > 0 && digits[0] != '-' && exists|k: int|
        leading_nonzero_digit(digits, k))
}

/// Place `k` holds a digit other than `0`, and no exponent mark stands
/// before it.
pub open spec fn leading_nonzero_digit(digits: Seq<char>, k: int) -> bool {
    &&& 0 <= k < digits.len()
    &&& '1' <= digits[k] && digits[k] <= '9'
    &&& forall|j: int| 0 <= j < k ==> #[trigger] digits[j] != 'e' && digits[j] != 'E'
}

/// Truth of a value where a condition is asked for: a text or a list that is
/// not empty, a number above zero, `true`, a function or a class.
pub open spec fn truthy(value: PrimativeView) -> bool {
    match value {
        PrimativeView::Empty => false,
        PrimativeView::Bool(flag) => flag,
        PrimativeView::Integer(number) => number > 0,
        PrimativeView::Double(digits) => spells_positive(digits),
        PrimativeView::Text(content) => content.len() > 0,
        PrimativeView::List(items) => items.len() > 0,
        PrimativeView::Function(_) => true,
        PrimativeView::Class(_) => true,
    }
}

/// How a value is written out. `quoted` puts a text between double quotes,
/// as inside a list.
pub open spec fn rendered(value: PrimativeView, quoted: bool) -> Seq<char>
    decreases value, 0nat,
{
    match value {
        PrimativeView::Empty => "boş"@,
        PrimativeView::Bool(flag) => if flag {
            "doğru"@
        } else {
            "yanlış"@
        },
        PrimativeView::Integer(number) => crate::text::integer_text(number as int),
        PrimativeView::Double(digits) => digits,
        PrimativeView::Text(content) => if quoted {
            "\""@ + content + "\""@
        } else {
            content
        },
        PrimativeView::List(items) => "["@ + rendered_items(items, items.len()) + "]"@,
        PrimativeView::Function(reference) => "<Fonksiyon='"@ + reference.name + "'>"@,
        PrimativeView::Class(name) => "<Sınıf='"@ + name + "'>"@,
    }
}

/// The first `count` items written out, a comma and a blank between two.
pub open spec fn rendered_items(items: Seq<PrimativeView>, count: nat) -> Seq<char>
    decreases items, count,
{
    if count == 0 || count > items.len() {
        Seq::empty()
    } else if count == 1 {
        rendered(items[0], true)
    } else {
        rendered_items(items, (count - 1) as nat) + ", "@ + rendered(items[count - 1], true)
    }
}

/// The view of a list value is the list of its items' views.
pub proof fn list_view_is_item_views(items: Vec<VmObject>)
    ensures
        BramaPrimative::List(items)@ == PrimativeView::List(object_views(items@)),
{
    let view = BramaPrimative::List(items)@;
    assert(view is List);
    let listed = view->List_0;
    assert(listed.len() == items@.len());
    assert forall|i: int| 0 <= i < listed.len() implies listed[i] == object_views(items@)[i] by {
        assert(listed[i] == (*items[i].value)@);
    }
    assert(listed =~= object_views(items@));
}

impl BramaPrimative {
    /// Structural equality: the two values are the same tree.
    pub fn equals(&self, other: &BramaPrimative) -> (same: bool)
        ensures
            same == (self@ == other@),
        decreases *self,
    {
        match (self, other) {
            (BramaPrimative::Empty, BramaPrimative::Empty) => true,
            (BramaPrimative::Bool(left), BramaPrimative::Bool(right)) => *left == *right,
            (BramaPrimative::Integer(left), BramaPrimative::Integer(right)) => *left == *right,
            (BramaPrimative::Double(left), BramaPrimative::Double(right)) => {
                crate::text::same_text(left.as_str(), right.as_str())
            },
            (BramaPrimative::Text(left), BramaPrimative::Text(right)) => {
                crate::text::same_text(left.as_str(), right.as_str())
            },
            (BramaPrimative::List(left), BramaPrimative::List(right)) => {
                proof {
                    list_view_is_item_views(*left);
                    list_view_is_item_views(*right);
                }
                if left.len() != right.len() {
                    assert(object_views(left@).len() != object_views(right@).len());
                    return false;
                }
                let mut i: usize = 0;
                while i < left.len()
                    invariant
                        i <= left.len(),
                        left.len() == right.len(),
                        self->List_0 == *left,
                        self@ == PrimativeView::List(object_views(left@)),
                        other@ == PrimativeView::List(object_views(right@)),
                        forall|j: int| 0 <= j < i ==> left[j]@ == right[j]@,
                    decreases left.len() - i,
                {
                    proof {
                        assert(decreases_to!(*left => left[i as int]));
                    }
                    if !left[i].value.equals(&right[i].value) {
                        assert(object_views(left@)[i as int] != object_views(right@)[i as int]);
                        return false;
                    }
                    i += 1;
                }
                assert(object_views(left@) =~= object_views(right@));
                true
            },
            (BramaPrimative::Function(left), BramaPrimative::Function(right)) => {
                let same: bool = crate::text::same_text(left.name.as_str(), right.name.as_str())
                    && crate::text::same_texts(&left.path, &right.path)
                    && crate::text::same_text(left.framework.as_str(), right.framework.as_str())
                    && left.callback == right.callback;
                same
            },
            (BramaPrimative::Class(left), BramaPrimative::Class(right)) => {
                crate::text::same_text(left.name.as_str(), right.name.as_str())
            },
            _ => false,
        }
    }

    /// The truth of the value where a condition is asked for.
    pub fn is_true(&self) -> (truth: bool)
        ensures
            truth == truthy(self@),
    {
        match self {
            BramaPrimative::Empty => false,
            BramaPrimative::Bool(flag) => *flag,
            BramaPrimative::Integer(number) => *number > 0,
            BramaPrimative::Double(digits) => positive_spelling(digits.as_str()),
            BramaPrimative::Text(content) => content.as_str().unicode_len() > 0,
            BramaPrimative::List(items) => {
                proof {
                    list_view_is_item_views(*items);
                }
                items.len() > 0
            },
            BramaPrimative::Function(_) => true,
            BramaPrimative::Class(_) => true,
        }
    }

    /// Appends the value as it is written out.
    pub fn render(&self, quoted: bool, out: &mut String)
        ensures
            final(out)@ == old(out)@ + rendered(self@, quoted),
        decreases *self,
    {
        match self {
            BramaPrimative::Empty => {
                crate::text::push_text(out, "boş");
            },
            BramaPrimative::Bool(flag) => {
                if *flag {
                    crate::text::push_text(out, "doğru");
                } else {
                    crate::text::push_text(out, "yanlış");
                }
            },
            BramaPrimative::Integer(number) => {
                crate::text::push_integer(out, *number);
            },
            BramaPrimative::Double(digits) => {
                crate::text::push_text(out, digits.as_str());
            },
            BramaPrimative::Text(content) => {
                if quoted {
                    crate::text::push_text(out, "\"");
                    crate::text::push_text(out, content.as_str());
                    crate::text::push_text(out, "\"");
                    assert(final(out)@ =~= old(out)@ + rendered(self@, quoted));
                } else {
                    crate::text::push_text(out, content.as_str());
                }
            },
            BramaPrimative::List(items) => {
                proof {
                    list_view_is_item_views(*items);
                }
                crate::text::push_text(out, "[");
                let mut i: usize = 0;
                while i < items.len()
                    invariant
                        i <= items.len(),
                        *self is List,
                        self->List_0 == *items,
                        out@ == old(out)@ + "["@ + rendered_items(object_views(items@), i as nat),
                    decreases items.len() - i,
                {
                    proof {
                        assert(decreases_to!(*items => items[i as int]));
                    }
                    if i > 0 {
                        crate::text::push_text(out, ", ");
                    }
                    proof {
                        assert(decreases_to!(*self => *items[i as int].value));
                    }
                    items[i].value.render(true, out);
                    i += 1;
                    proof {
                        let views = object_views(items@);
                        assert(views[i - 1] == items[i - 1]@);
                        assert(out@ =~= old(out)@ + "["@ + rendered_items(views, i as nat));
                    }
                }
                crate::text::push_text(out, "]");
                assert(final(out)@ =~= old(out)@ + rendered(self@, quoted));
            },
            BramaPrimative::Function(reference) => {
                crate::text::push_text(out, "<Fonksiyon='");
                crate::text::push_text(out, reference.name.as_str());
                crate::text::push_text(out, "'>");
                assert(final(out)@ =~= old(out)@ + rendered(self@, quoted));
            },
            BramaPrimative::Class(class) => {
                crate::text::push_text(out, "<Sınıf='");
                crate::text::push_text(out, class.name.as_str());
                crate::text::push_text(out, "'>");
                assert(final(out)@ =~= old(out)@ + rendered(self@, quoted));
            },
        }
    }
}

/// The empty value.
pub fn empty_object() -> (object: VmObject)
    ensures
        object@ == PrimativeView::Empty,
{
    VmObject::from(BramaPrimative::Empty)
}

/// Whether a decimal spelling writes a number above zero.
pub fn positive_spelling(digits: &str) -> (positive: bool)
    ensures
        positive == spells_positive(digits@),
{
    if crate::text::same_text(digits, "inf") {
        return true;
    }
    let count: usize = digits.unicode_len();
    if count == 0 || digits.get_char(0) == '-' {
        proof {
            reveal_strlit("inf");
        }
        return false;
    }
    let mut i: usize = 0;
    while i < count
        invariant
            i <= count,
            count == digits@.len(),
            count > 0,
            digits@[0] != '-',
            digits@ != "inf"@,
            forall|j: int| 0 <= j < i ==> #[trigger] digits@[j] != 'e' && digits@[j] != 'E',
            forall|j: int| 0 <= j < i ==> !('1' <= #[trigger] digits@[j] && digits@[j] <= '9'),
        decreases count - i,
    {
        let ch: char = digits.get_char(i);
        if ch == 'e' || ch == 'E' {
            assert forall|k: int| !leading_nonzero_digit(digits@, k) by {
                if leading_nonzero_digit(digits@, k) {
                    if k > i {
                        assert(digits@[i as int] != 'e' && digits@[i as int] != 'E');
                    }
                }
            }
            return false;
        }
        if '1' <= ch && ch <= '9' {
            assert(leading_nonzero_digit(digits@, i as int));
            return true;
        }
        i += 1;
    }
    assert forall|k: int| !leading_nonzero_digit(digits@, k) by {}
    false
}

} // verus!
