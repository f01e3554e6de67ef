//! Output values and shapes.
//!
//! An indicator or strategy step produces an [`OutputType`]: a scalar, a
//! vector, a symbolic reference into market data, a nested composite of
//! sub-results, or a symbolic comparison outcome. An [`OutputShape`]
//! describes the dimensionality of such a value. This module validates
//! shapes, projects values to shapes, resolves symbolic references against a
//! market-data sample, and partially orders values.
//!
//! Scalars are IEEE 754 binary64 bit patterns; see [`crate::num`].

use vstd::prelude::*;

verus! {

broadcast use vstd::std_specs::vec::group_vec_axioms;

use core::cmp::Ordering;
use crate::errors::{OutputError, TaUtilsError, TaUtilsResult};
use crate::num::{cmp_bits, eq_bits, num_cmp, num_eq};
use crate::traits::Candle;
use vstd::string::StringExecFns;

/// The dimensionality of an output value: a single axis of a given length,
/// or a tensor of child shapes.
#[derive(Debug)]
pub enum OutputShape {
    Shape(usize),
    Tensor(Vec<OutputShape>),
}

/// The mathematical model of a shape tree: sizes as `nat`, children as `Seq`.
pub enum ShapeV {
    Shape(nat),
    Tensor(Seq<ShapeV>),
}

/// A symbolic comparison outcome produced by a predicate evaluation.
#[derive(Clone, Copy, Debug, PartialEq, Eq, Structural)]
pub enum Statics {
    Greater,
    Equal,
    Less,
    True,
    False,
}

/// An output value: a concrete scalar or vector, a symbolic field reference
/// into market data, a composite of sub-values, or a comparison outcome
/// (scalar or vector). Scalars are IEEE 754 bit patterns.
#[derive(Debug)]
pub enum OutputType {
    Single(u64),
    Array(Vec<u64>),
    Open,
    Close,
    High,
    Low,
    Volume,
    Custom(Vec<OutputType>),
    Static(Statics),
    Statics(Vec<Statics>),
}

/// The mathematical model of an output value.
pub enum ValueV {
    Single(u64),
    Array(Seq<u64>),
    Open,
    Close,
    High,
    Low,
    Volume,
    Custom(Seq<ValueV>),
    Static(Statics),
    Statics(Seq<Statics>),
}

/// The five fields of a market-data sample, as scalar bit patterns.
#[derive(Clone, Copy, Debug, PartialEq, Eq, Structural)]
pub struct SampleV {
    pub open: u64,
    pub close: u64,
    pub high: u64,
    pub low: u64,
    pub volume: u64,
}

// ---------------------------------------------------------------------------
// Views
// ---------------------------------------------------------------------------

/// The model of a shape.
pub open spec fn shape_view(s: OutputShape) -> ShapeV
    decreases s, 0int,
{
    match s {
        OutputShape::Shape(n) => ShapeV::Shape(n as nat),
        OutputShape::Tensor(v) => ShapeV::Tensor(shape_views(v@, 0)),
    }
}

/// The models of the shapes of a sequence, from index `i` on.
pub open spec fn shape_views(vs: Seq<OutputShape>, i: int) -> Seq<ShapeV>
    decreases vs, vs.len() - i + 1,
{
    if i < 0 || i >= vs.len() {
        Seq::empty()
    } else {
        seq![shape_view(vs[i])] + shape_views(vs, i + 1)
    }
}

impl View for OutputShape {
    type V = ShapeV;

    open spec fn view(&self) -> ShapeV {
        shape_view(*self)
    }
}

proof fn lemma_shape_views_index(vs: Seq<OutputShape>, i: int, k: int)
    requires
        0 <= i <= vs.len(),
        i <= k < vs.len(),
    ensures
        shape_views(vs, i).len() == vs.len() - i,
        shape_views(vs, i)[k - i] == shape_view(vs[k]),
    decreases vs.len() - i + 1,
{
    lemma_shape_views_len(vs, i);
    if i < vs.len() && k > i {
        lemma_shape_views_index(vs, i + 1, k);
    }
}

proof fn lemma_shape_views_len(vs: Seq<OutputShape>, i: int)
    ensures
        0 <= i <= vs.len() ==> shape_views(vs, i).len() == vs.len() - i,
    decreases vs.len() - i + 1,
{
    if 0 <= i < vs.len() {
        lemma_shape_views_len(vs, i + 1);
    }
}

/// Pointwise characterization of the sequence of shape models.
pub proof fn lemma_shape_views(vs: Seq<OutputShape>)
    ensures
        shape_views(vs, 0).len() == vs.len(),
        forall|k: int| 0 <= k < vs.len() ==> shape_views(vs, 0)[k] == shape_view(vs[k]),
{
    lemma_shape_views_len(vs, 0);
    assert forall|k: int| 0 <= k < vs.len() implies shape_views(vs, 0)[k] == shape_view(vs[k]) by {
        lemma_shape_views_index(vs, 0, k);
    }
}

/// The model of an output value.
pub open spec fn value_view(v: OutputType) -> ValueV
    decreases v, 0int,
{
    match v {
        OutputType::Single(x) => ValueV::Single(x),
        OutputType::Array(a) => ValueV::Array(a@),
        OutputType::Open => ValueV::Open,
        OutputType::Close => ValueV::Close,
        OutputType::High => ValueV::High,
        OutputType::Low => ValueV::Low,
        OutputType::Volume => ValueV::Volume,
        OutputType::Custom(c) => ValueV::Custom(value_views(c@, 0)),
        OutputType::Static(s) => ValueV::Static(s),
        OutputType::Statics(ss) => ValueV::Statics(ss@),
    }
}

/// The models of a sequence of values, from index `i` on.
pub open spec fn value_views(vs: Seq<OutputType>, i: int) -> Seq<ValueV>
    decreases vs, vs.len() - i + 1,
{
    if i < 0 || i >= vs.len() {
        Seq::empty()
    } else {
        seq![value_view(vs[i])] + value_views(vs, i + 1)
    }
}

impl View for OutputType {
    type V = ValueV;

    open spec fn view(&self) -> ValueV {
        value_view(*self)
    }
}

proof fn lemma_value_views_index(vs: Seq<OutputType>, i: int, k: int)
    requires
        0 <= i <= vs.len(),
        i <= k < vs.len(),
    ensures
        value_views(vs, i).len() == vs.len() - i,
        value_views(vs, i)[k - i] == value_view(vs[k]),
    decreases vs.len() - i + 1,
{
    lemma_value_views_len(vs, i);
    if i < vs.len() && k > i {
        lemma_value_views_index(vs, i + 1, k);
    }
}

proof fn lemma_value_views_len(vs: Seq<OutputType>, i: int)
    ensures
        0 <= i <= vs.len() ==> value_views(vs, i).len() == vs.len() - i,
    decreases vs.len() - i + 1,
{
    if 0 <= i < vs.len() {
        lemma_value_views_len(vs, i + 1);
    }
}

/// Pointwise characterization of the sequence of value models.
pub proof fn lemma_value_views(vs: Seq<OutputType>)
    ensures
        value_views(vs, 0).len() == vs.len(),
        forall|k: int| 0 <= k < vs.len() ==> value_views(vs, 0)[k] == value_view(vs[k]),
{
    lemma_value_views_len(vs, 0);
    assert forall|k: int| 0 <= k < vs.len() implies value_views(vs, 0)[k] == value_view(vs[k]) by {
        lemma_value_views_index(vs, 0, k);
    }
}

// ---------------------------------------------------------------------------
// Shape validation
// ---------------------------------------------------------------------------

/// All children are the one-element shape, so the tensor collapses.
pub open spec fn all_unit(cs: Seq<ShapeV>) -> bool {
    forall|i: int| 0 <= i < cs.len() ==> cs[i] == ShapeV::Shape(1)
}

/// What validation returns: the (possibly collapsed) shape, or the offending
/// sub-shape that the error reports.
pub open spec fn spec_validate(s: ShapeV) -> Result<ShapeV, ShapeV>
    decreases s, 0int,
{
    match s {
        ShapeV::Shape(n) => if n > 0 {
            Ok(s)
        } else {
            Err(s)
        },
        ShapeV::Tensor(cs) => if cs.len() == 0 {
            Err(s)
        } else if all_unit(cs) {
            Ok(ShapeV::Shape(cs.len()))
        } else {
            match first_invalid_from(cs, 0) {
                Some(e) => Err(e),
                None => Ok(s),
            }
        },
    }
}

/// The error of the first child from index `i` on that fails validation, if
/// any.
pub open spec fn first_invalid_from(cs: Seq<ShapeV>, i: int) -> Option<ShapeV>
    decreases cs, cs.len() - i + 1,
{
    if i < 0 || i >= cs.len() {
        None
    } else {
        match spec_validate(cs[i]) {
            Err(e) => Some(e),
            Ok(_) => first_invalid_from(cs, i + 1),
        }
    }
}

impl Clone for OutputShape {
    /// Structure-preserving copy of a shape tree.
    #[verifier::loop_isolation(false)]
    fn clone(&self) -> (r: Self)
        ensures
            r@ == self@,
        decreases *self,
    {
        match self {
            OutputShape::Shape(n) => OutputShape::Shape(*n),
            OutputShape::Tensor(v) => {
                let mut out: Vec<OutputShape> = Vec::new();
                let mut i: usize = 0;
                while i < v.len()
                    invariant
                        i <= v.len(),
                        out@.len() == i,
                        forall|k: int| 0 <= k < i ==> shape_view(#[trigger] out@[k]) == shape_view(
                            v@[k],
                        ),
                    decreases v.len() - i,
                {
                    proof {
                        assert(*v == self->Tensor_0);
                        assert(decreases_to!(*self => self->Tensor_0));
                        assert(decreases_to!(*v => v@[i as int]));
                    }
                    out.push(v[i].clone());
                    i = i + 1;
                }
                proof {
                    lemma_shape_views(out@);
                    lemma_shape_views(v@);
                    assert(shape_views(out@, 0) =~= shape_views(v@, 0));
                }
                OutputShape::Tensor(out)
            },
        }
    }
}

impl PartialEq for OutputShape {
    /// Structural equality of shape trees.
    #[verifier::loop_isolation(false)]
    fn eq(&self, other: &Self) -> (r: bool)
        decreases *self,
    {
        match (self, other) {
            (OutputShape::Shape(a), OutputShape::Shape(b)) => *a == *b,
            (OutputShape::Tensor(x), OutputShape::Tensor(y)) => {
                let ghost sx = shape_views(x@, 0);
                let ghost sy = shape_views(y@, 0);
                proof {
                    lemma_shape_views(x@);
                    lemma_shape_views(y@);
                }
                if x.len() != y.len() {
                    assert(sx.len() != sy.len());
                    return false;
                }
                let mut i: usize = 0;
                while i < x.len()
                    invariant
                        i <= x.len(),
                        x@.len() == y@.len(),
                        self@ == ShapeV::Tensor(sx),
                        other@ == ShapeV::Tensor(sy),
                        sx.len() == x@.len(),
                        sy.len() == y@.len(),
                        forall|k: int| 0 <= k < x@.len() ==> sx[k] == shape_view(#[trigger] x@[k]),
                        forall|k: int| 0 <= k < y@.len() ==> sy[k] == shape_view(#[trigger] y@[k]),
                        forall|k: int| 0 <= k < i ==> sx[k] == sy[k],
                    decreases x.len() - i,
                {
                    proof {
                        assert(*x == self->Tensor_0);
                        assert(decreases_to!(*self => self->Tensor_0));
                        assert(decreases_to!(*x => x@[i as int]));
                    }
                    if !(x[i] == y[i]) {
                        assert(sx[i as int] != sy[i as int]);
                        return false;
                    }
                    i = i + 1;
                }
                assert(sx =~= sy);
                true
            },
            _ => false,
        }
    }
}

impl vstd::std_specs::cmp::PartialEqSpecImpl for OutputShape {
    open spec fn obeys_eq_spec() -> bool {
        true
    }

    open spec fn eq_spec(&self, other: &Self) -> bool {
        self@ == other@
    }
}

impl OutputShape {
    /// Validates a shape tree and normalizes it: a flat shape must have a
    /// positive size, a tensor must be non-empty, and a tensor whose children
    /// are all single elements collapses to a flat shape of their count.
    /// A failure reports the offending sub-shape, the first one in order.
    #[verifier::loop_isolation(false)]
    pub fn validate(&self) -> (r: TaUtilsResult<OutputShape>)
        ensures
            match spec_validate(self@) {
                Ok(shv) => r matches Ok(sh) && sh@ == shv,
                Err(badv) => r matches Err(e) && (e matches TaUtilsError::Cmp(
                    OutputError::InvalidOutputShape(bad),
                ) && bad@ == badv),
            },
        decreases *self,
    {
        match self {
            OutputShape::Shape(size) => {
                if *size > 0 {
                    Ok(OutputShape::Shape(*size))
                } else {
                    Err(TaUtilsError::Cmp(OutputError::InvalidOutputShape(self.clone())))
                }
            },
            OutputShape::Tensor(vec) => {
                let ghost cs = shape_views(vec@, 0);
                proof {
                    lemma_shape_views(vec@);
                }
                if vec.len() == 0 {
                    return Err(TaUtilsError::Cmp(OutputError::InvalidOutputShape(self.clone())));
                }
                let mut units = true;
                let mut i: usize = 0;
                while i < vec.len()
                    invariant
                        i <= vec.len(),
                        cs == shape_views(vec@, 0),
                        cs.len() == vec@.len(),
                        forall|k: int| 0 <= k < vec@.len() ==> cs[k] == shape_view(
                            #[trigger] vec@[k],
                        ),
                        units == (forall|k: int| 0 <= k < i ==> cs[k] == ShapeV::Shape(1)),
                    decreases vec.len() - i,
                {
                    let unit = match &vec[i] {
                        OutputShape::Shape(n) => *n == 1,
                        _ => false,
                    };
                    proof {
                        assert(cs[i as int] == shape_view(vec@[i as int]));
                    }
                    units = units && unit;
                    i = i + 1;
                }
                if units {
                    assert(all_unit(cs));
                    return Ok(OutputShape::Shape(vec.len()));
                }
                assert(!all_unit(cs));
                let mut j: usize = 0;
                while j < vec.len()
                    invariant
                        j <= vec.len(),
                        cs == shape_views(vec@, 0),
                        cs.len() == vec@.len(),
                        !all_unit(cs),
                        vec@.len() > 0,
                        self@ == ShapeV::Tensor(cs),
                        forall|k: int| 0 <= k < vec@.len() ==> cs[k] == shape_view(
                            #[trigger] vec@[k],
                        ),
                        first_invalid_from(cs, 0) == first_invalid_from(cs, j as int),
                    decreases vec.len() - j,
                {
                    proof {
                        assert(*vec == self->Tensor_0);
                        assert(decreases_to!(*self => self->Tensor_0));
                        assert(decreases_to!(*vec => vec@[j as int]));
                    }
                    match vec[j].validate() {
                        Ok(_) => {
                            assert(first_invalid_from(cs, j as int) == first_invalid_from(
                                cs,
                                j as int + 1,
                            ));
                        },
                        Err(e) => {
                            assert(first_invalid_from(cs, 0) matches Some(b) && (
                            e matches TaUtilsError::Cmp(OutputError::InvalidOutputShape(bad))
                                && bad@ == b));
                            return Err(e);
                        },
                    }
                    j = j + 1;
                }
                assert(first_invalid_from(cs, vec@.len() as int) is None);
                Ok(self.clone())
            },
        }
    }
}

// ---------------------------------------------------------------------------
// Rendering
// ---------------------------------------------------------------------------

/// The character of a decimal digit.
pub open spec fn digit_char(d: nat) -> char {
    if d == 0 {
        '0'
    } else if d == 1 {
        '1'
    } else if d == 2 {
        '2'
    } else if d == 3 {
        '3'
    } else if d == 4 {
        '4'
    } else if d == 5 {
        '5'
    } else if d == 6 {
        '6'
    } else if d == 7 {
        '7'
    } else if d == 8 {
        '8'
    } else {
        '9'
    }
}

/// The decimal digits of a number, most significant first.
pub open spec fn dec_digits(n: nat) -> Seq<char>
    decreases n,
{
    if n < 10 {
        seq![digit_char(n)]
    } else {
        dec_digits(n / 10).push(digit_char(n % 10))
    }
}

/// The human-readable rendering of a shape: `Shape(n)` for a flat shape,
/// `Tensor(c1, c2, ...)` for a tensor, children rendered recursively and
/// separated by a comma and a space.
pub open spec fn spec_render(s: ShapeV) -> Seq<char>
    decreases s, 0int,
{
    match s {
        ShapeV::Shape(n) => "Shape("@ + dec_digits(n) + ")"@,
        ShapeV::Tensor(cs) => "Tensor("@ + render_children(cs, 0) + ")"@,
    }
}

/// The renderings of the children from index `i` on, comma-separated.
pub open spec fn render_children(cs: Seq<ShapeV>, i: int) -> Seq<char>
    decreases cs, cs.len() - i + 1,
{
    if i < 0 || i >= cs.len() {
        Seq::empty()
    } else if i == cs.len() - 1 {
        spec_render(cs[i])
    } else {
        spec_render(cs[i]) + ", "@ + render_children(cs, i + 1)
    }
}

/// The one-character string of a decimal digit.
fn digit_str(d: usize) -> (r: &'static str)
    requires
        d < 10,
    ensures
        r@ == seq![digit_char(d as nat)],
{
    proof {
        reveal_strlit("0");
        reveal_strlit("1");
        reveal_strlit("2");
        reveal_strlit("3");
        reveal_strlit("4");
        reveal_strlit("5");
        reveal_strlit("6");
        reveal_strlit("7");
        reveal_strlit("8");
        reveal_strlit("9");
    }
    let r: &'static str = match d {
        0 => "0",
        1 => "1",
        2 => "2",
        3 => "3",
        4 => "4",
        5 => "5",
        6 => "6",
        7 => "7",
        8 => "8",
        _ => "9",
    };
    proof {
        assert(r@ =~= seq![digit_char(d as nat)]);
    }
    r
}

/// Appends the decimal rendering of a number.
fn push_number(out: &mut String, n: usize)
    ensures
        final (out)@ == old(out)@ + dec_digits(n as nat),
    decreases n,
{
    if n >= 10 {
        push_number(out, n / 10);
    }
    let ghost mid = out@;
    out.append(digit_str(n % 10));
    proof {
        if n < 10 {
            assert(out@ =~= old(out)@ + dec_digits(n as nat));
        } else {
            assert(mid == old(out)@ + dec_digits(n as nat / 10));
            assert(out@ =~= old(out)@ + dec_digits(n as nat));
        }
    }
}

impl OutputShape {
    /// Renders the shape for error messages, as [`spec_render`] describes.
    #[verifier::loop_isolation(false)]
    pub fn render(&self) -> (r: String)
        ensures
            r@ == spec_render(self@),
        decreases *self,
    {
        match self {
            OutputShape::Shape(n) => {
                let mut out = String::from_str("Shape(");
                push_number(&mut out, *n);
                out.append(")");
                proof {
                    assert(out@ =~= spec_render(self@));
                }
                out
            },
            OutputShape::Tensor(v) => {
                let ghost cs = shape_views(v@, 0);
                proof {
                    lemma_shape_views(v@);
                }
                let mut out = String::from_str("Tensor(");
                let mut i: usize = 0;
                while i < v.len()
                    invariant
                        i <= v@.len(),
                        out@ + render_children(cs, i as int) + ")"@ == spec_render(self@),
                    decreases v@.len() - i,
                {
                    proof {
                        assert(*v == self->Tensor_0);
                        assert(decreases_to!(*self => self->Tensor_0));
                        assert(decreases_to!(*v => v@[i as int]));
                    }
                    let ghost mid = out@;
                    let piece = v[i].render();
                    out.append(piece.as_str());
                    if i + 1 < v.len() {
                        out.append(", ");
                    }
                    proof {
                        assert(mid + render_children(cs, i as int) =~= out@ + render_children(
                            cs,
                            i as int + 1,
                        ));
                        assert(out@ + render_children(cs, i as int + 1) + ")"@ =~= mid
                            + render_children(cs, i as int) + ")"@);
                    }
                    i = i + 1;
                }
                out.append(")");
                proof {
                    assert(out@ =~= spec_render(self@));
                }
                out
            },
        }
    }
}

// ---------------------------------------------------------------------------
// Value -> shape projection
// ---------------------------------------------------------------------------

/// The shape of a value: scalars, field references and outcomes are single
/// elements; vectors are flat shapes of their length; a composite is the
/// validated tensor of its children's shapes. The error carries the
/// offending sub-shape.
pub open spec fn spec_output_shape(v: ValueV) -> Result<ShapeV, ShapeV>
    decreases v, 0int,
{
    match v {
        ValueV::Single(_) => Ok(ShapeV::Shape(1)),
        ValueV::Array(a) => spec_validate(ShapeV::Shape(a.len())),
        ValueV::Open => Ok(ShapeV::Shape(1)),
        ValueV::Close => Ok(ShapeV::Shape(1)),
        ValueV::High => Ok(ShapeV::Shape(1)),
        ValueV::Low => Ok(ShapeV::Shape(1)),
        ValueV::Volume => Ok(ShapeV::Shape(1)),
        ValueV::Custom(cs) => match child_shapes(cs, 0) {
            Ok(shs) => spec_validate(ShapeV::Tensor(shs)),
            Err(e) => Err(e),
        },
        ValueV::Static(_) => Ok(ShapeV::Shape(1)),
        ValueV::Statics(ss) => spec_validate(ShapeV::Shape(ss.len())),
    }
}

/// The shapes of the children from index `i` on; the first failure wins.
pub open spec fn child_shapes(cs: Seq<ValueV>, i: int) -> Result<Seq<ShapeV>, ShapeV>
    decreases cs, cs.len() - i + 1,
{
    if i < 0 || i >= cs.len() {
        Ok(Seq::empty())
    } else {
        match spec_output_shape(cs[i]) {
            Err(e) => Err(e),
            Ok(sh) => match child_shapes(cs, i + 1) {
                Err(e) => Err(e),
                Ok(rest) => Ok(seq![sh] + rest),
            },
        }
    }
}

proof fn lemma_child_shapes_all_ok(cs: Seq<ValueV>, shs: Seq<ShapeV>, i: int)
    requires
        0 <= i <= cs.len(),
        shs.len() == cs.len(),
        forall|k: int| i <= k < cs.len() ==> spec_output_shape(#[trigger] cs[k]) == Ok::<
            ShapeV,
            ShapeV,
        >(shs[k]),
    ensures
        child_shapes(cs, i) == Ok::<Seq<ShapeV>, ShapeV>(shs.subrange(i, cs.len() as int)),
    decreases cs.len() - i,
{
    if i < cs.len() {
        lemma_child_shapes_all_ok(cs, shs, i + 1);
        assert(shs.subrange(i, cs.len() as int) =~= seq![shs[i]] + shs.subrange(
            i + 1,
            cs.len() as int,
        ));
    } else {
        assert(shs.subrange(i, cs.len() as int) =~= Seq::<ShapeV>::empty());
    }
}

proof fn lemma_child_shapes_err(cs: Seq<ValueV>, i: int, j: int, e: ShapeV)
    requires
        0 <= i <= j < cs.len(),
        forall|k: int| i <= k < j ==> spec_output_shape(#[trigger] cs[k]) is Ok,
        spec_output_shape(cs[j]) == Err::<ShapeV, ShapeV>(e),
    ensures
        child_shapes(cs, i) == Err::<Seq<ShapeV>, ShapeV>(e),
    decreases j - i,
{
    if i < j {
        lemma_child_shapes_err(cs, i + 1, j, e);
    }
}

impl OutputType {
    /// The validated shape of this value. The first failure in a left-to-
    /// right walk of a composite's children propagates.
    #[verifier::loop_isolation(false)]
    pub fn output_shape(&self) -> (r: TaUtilsResult<OutputShape>)
        ensures
            match spec_output_shape(self@) {
                Ok(shv) => r matches Ok(sh) && sh@ == shv,
                Err(badv) => r matches Err(e) && (e matches TaUtilsError::Cmp(
                    OutputError::InvalidOutputShape(bad),
                ) && bad@ == badv),
            },
        decreases *self,
    {
        match self {
            OutputType::Single(_) => Ok(OutputShape::Shape(1)),
            OutputType::Array(arr) => OutputShape::Shape(arr.len()).validate(),
            OutputType::Open => Ok(OutputShape::Shape(1)),
            OutputType::Close => Ok(OutputShape::Shape(1)),
            OutputType::High => Ok(OutputShape::Shape(1)),
            OutputType::Low => Ok(OutputShape::Shape(1)),
            OutputType::Volume => Ok(OutputShape::Shape(1)),
            OutputType::Static(_) => Ok(OutputShape::Shape(1)),
            OutputType::Statics(ss) => OutputShape::Shape(ss.len()).validate(),
            OutputType::Custom(vec) => {
                let ghost cs = value_views(vec@, 0);
                proof {
                    lemma_value_views(vec@);
                }
                let mut shapes: Vec<OutputShape> = Vec::new();
                let mut i: usize = 0;
                while i < vec.len()
                    invariant
                        i <= vec.len(),
                        shapes@.len() == i,
                        forall|k: int| 0 <= k < i ==> spec_output_shape(#[trigger] cs[k]) == Ok::<
                            ShapeV,
                            ShapeV,
                        >(shape_view(shapes@[k])),
                    decreases vec.len() - i,
                {
                    proof {
                        assert(*vec == self->Custom_0);
                        assert(decreases_to!(*self => self->Custom_0));
                        assert(decreases_to!(*vec => vec@[i as int]));
                    }
                    match vec[i].output_shape() {
                        Err(e) => {
                            proof {
                                let badv = spec_output_shape(cs[i as int])->Err_0;
                                lemma_child_shapes_err(cs, 0, i as int, badv);
                            }
                            return Err(e);
                        },
                        Ok(sh) => {
                            shapes.push(sh);
                        },
                    }
                    i = i + 1;
                }
                proof {
                    lemma_shape_views(shapes@);
                    lemma_child_shapes_all_ok(cs, shape_views(shapes@, 0), 0);
                    assert(shape_views(shapes@, 0).subrange(0, cs.len() as int) =~= shape_views(
                        shapes@,
                        0,
                    ));
                }
                OutputShape::Tensor(shapes).validate()
            },
        }
    }
}

// ---------------------------------------------------------------------------
// Resolution
// ---------------------------------------------------------------------------

/// Resolution of a value against a sample: concrete values stay as they are,
/// field references become the sample's scalar, and a composite resolves
/// each child, accepting only children that resolve to a scalar or a scalar
/// outcome. The error payload is constant, so only success is modeled.
pub open spec fn spec_resolve(v: ValueV, s: SampleV) -> Result<ValueV, ()>
    decreases v, 0int,
{
    match v {
        ValueV::Single(_) => Ok(v),
        ValueV::Array(_) => Ok(v),
        ValueV::Open => Ok(ValueV::Single(s.open)),
        ValueV::Close => Ok(ValueV::Single(s.close)),
        ValueV::High => Ok(ValueV::Single(s.high)),
        ValueV::Low => Ok(ValueV::Single(s.low)),
        ValueV::Volume => Ok(ValueV::Single(s.volume)),
        ValueV::Custom(cs) => if children_ok(cs, s, 0) {
            Ok(ValueV::Custom(resolved_children(cs, 0, s)))
        } else {
            Err(())
        },
        ValueV::Static(_) => Ok(v),
        ValueV::Statics(_) => Ok(v),
    }
}

/// A child is accepted when it resolves to a scalar or a scalar outcome.
pub open spec fn resolve_child_ok(c: ValueV, s: SampleV) -> bool
    decreases c, 1int,
{
    spec_resolve(c, s) matches Ok(rv) && (rv is Single || rv is Static)
}

/// All children from index `i` on are accepted.
pub open spec fn children_ok(cs: Seq<ValueV>, s: SampleV, i: int) -> bool
    decreases cs, cs.len() - i + 1,
{
    if i < 0 || i >= cs.len() {
        true
    } else {
        resolve_child_ok(cs[i], s) && children_ok(cs, s, i + 1)
    }
}

/// Acceptance of all children is the pointwise acceptance of each.
pub proof fn lemma_children_ok(cs: Seq<ValueV>, s: SampleV, i: int)
    requires
        0 <= i <= cs.len(),
    ensures
        children_ok(cs, s, i) <==> (forall|k: int|
            i <= k < cs.len() ==> #[trigger] resolve_child_ok(cs[k], s)),
    decreases cs.len() - i,
{
    if i < cs.len() {
        lemma_children_ok(cs, s, i + 1);
        if children_ok(cs, s, i) {
            assert forall|k: int| i <= k < cs.len() implies #[trigger] resolve_child_ok(
                cs[k],
                s,
            ) by {
                if k > i {
                    assert(resolve_child_ok(cs[k], s));
                }
            }
        } else {
            if resolve_child_ok(cs[i], s) {
                assert(!children_ok(cs, s, i + 1));
            }
        }
    }
}

/// What a child resolves to (meaningful only when resolution succeeds).
pub open spec fn resolved_child(c: ValueV, s: SampleV) -> ValueV
    decreases c, 1int,
{
    match spec_resolve(c, s) {
        Ok(rv) => rv,
        Err(_) => c,
    }
}

/// The resolved children from index `i` on.
pub open spec fn resolved_children(cs: Seq<ValueV>, i: int, s: SampleV) -> Seq<ValueV>
    decreases cs, cs.len() - i + 1,
{
    if i < 0 || i >= cs.len() {
        Seq::empty()
    } else {
        seq![resolved_child(cs[i], s)] + resolved_children(cs, i + 1, s)
    }
}

proof fn lemma_resolved_children_index(cs: Seq<ValueV>, s: SampleV, i: int, k: int)
    requires
        0 <= i <= cs.len(),
        i <= k < cs.len(),
    ensures
        resolved_children(cs, i, s).len() == cs.len() - i,
        resolved_children(cs, i, s)[k - i] == resolved_child(cs[k], s),
    decreases cs.len() - i + 1,
{
    lemma_resolved_children_len(cs, s, i);
    if i < cs.len() && k > i {
        lemma_resolved_children_index(cs, s, i + 1, k);
    }
}

proof fn lemma_resolved_children_len(cs: Seq<ValueV>, s: SampleV, i: int)
    ensures
        0 <= i <= cs.len() ==> resolved_children(cs, i, s).len() == cs.len() - i,
    decreases cs.len() - i + 1,
{
    if 0 <= i < cs.len() {
        lemma_resolved_children_len(cs, s, i + 1);
    }
}

/// Pointwise characterization of the resolved children.
pub proof fn lemma_resolved_children(cs: Seq<ValueV>, s: SampleV)
    ensures
        resolved_children(cs, 0, s).len() == cs.len(),
        forall|k: int| 0 <= k < cs.len() ==> resolved_children(cs, 0, s)[k] == resolved_child(
            cs[k],
            s,
        ),
{
    lemma_resolved_children_len(cs, s, 0);
    assert forall|k: int| 0 <= k < cs.len() implies resolved_children(cs, 0, s)[k]
        == resolved_child(cs[k], s) by {
        lemma_resolved_children_index(cs, s, 0, k);
    }
}

impl OutputType {
    /// Resolves this value against a market-data sample: field references
    /// become the sample's scalars, concrete values stay unchanged, and a
    /// composite accepts only children that resolve to a scalar or a scalar
    /// outcome; any other child fails the whole resolution.
    #[verifier::loop_isolation(false)]
    pub fn resolve<C: Candle>(&self, data: &C) -> (r: TaUtilsResult<OutputType>)
        ensures
            ({
                let s = (SampleV {
                    open: data.spec_open(),
                    close: data.spec_close(),
                    high: data.spec_high(),
                    low: data.spec_low(),
                    volume: data.spec_volume(),
                });
                match spec_resolve(self@, s) {
                    Ok(v) => r matches Ok(out) && out@ == v,
                    Err(u) => r matches Err(e) && (e matches TaUtilsError::IncorrectOutputType {
                        expected,
                        actual,
                    } && expected@ == "Single"@ && actual@ == "Array"@),
                }
            }),
        decreases *self,
    {
        let ghost s = SampleV {
            open: data.spec_open(),
            close: data.spec_close(),
            high: data.spec_high(),
            low: data.spec_low(),
            volume: data.spec_volume(),
        };
        match self {
            OutputType::Single(x) => Ok(OutputType::Single(*x)),
            OutputType::Array(a) => Ok(OutputType::Array(clone_u64s(a))),
            OutputType::Open => Ok(OutputType::Single(data.open())),
            OutputType::Close => Ok(OutputType::Single(data.close())),
            OutputType::High => Ok(OutputType::Single(data.high())),
            OutputType::Low => Ok(OutputType::Single(data.low())),
            OutputType::Volume => Ok(OutputType::Single(data.volume())),
            OutputType::Static(st) => Ok(OutputType::Static(*st)),
            OutputType::Statics(ss) => Ok(OutputType::Statics(clone_statics(ss))),
            OutputType::Custom(vec) => {
                let ghost cs = value_views(vec@, 0);
                proof {
                    lemma_value_views(vec@);
                    lemma_resolved_children(cs, s);
                }
                let mut out: Vec<OutputType> = Vec::new();
                let mut i: usize = 0;
                while i < vec.len()
                    invariant
                        i <= vec.len(),
                        out@.len() == i,
                        forall|k: int| 0 <= k < i ==> #[trigger] resolve_child_ok(cs[k], s),
                        forall|k: int| 0 <= k < i ==> value_view(#[trigger] out@[k])
                            == resolved_child(cs[k], s),
                    decreases vec.len() - i,
                {
                    proof {
                        assert(*vec == self->Custom_0);
                        assert(decreases_to!(*self => self->Custom_0));
                        assert(decreases_to!(*vec => vec@[i as int]));
                    }
                    match vec[i].resolve(data) {
                        Err(e) => {
                            proof {
                                assert(self@ == ValueV::Custom(cs));
                                assert((i as int) < cs.len() && !resolve_child_ok(
                                    cs[i as int],
                                    s,
                                ));
                                lemma_children_ok(cs, s, 0);
                                assert(spec_resolve(self@, s) == Err::<ValueV, ()>(()));
                            }
                            return Err(e);
                        },
                        Ok(rv) => {
                            match rv {
                                OutputType::Single(_) => {
                                    out.push(rv);
                                },
                                OutputType::Static(_) => {
                                    out.push(rv);
                                },
                                _ => {
                                    proof {
                                        assert(self@ == ValueV::Custom(cs));
                                        assert((i as int) < cs.len() && !resolve_child_ok(
                                            cs[i as int],
                                            s,
                                        ));
                                        lemma_children_ok(cs, s, 0);
                                        assert(spec_resolve(self@, s) == Err::<ValueV, ()>(()));
                                    }
                                    return Err(TaUtilsError::IncorrectOutputType {
                                        expected: String::from_str("Single"),
                                        actual: String::from_str("Array"),
                                    });
                                },
                            }
                        },
                    }
                    i = i + 1;
                }
                proof {
                    lemma_children_ok(cs, s, 0);
                    lemma_value_views(out@);
                    assert(value_views(out@, 0) =~= resolved_children(cs, 0, s));
                }
                Ok(OutputType::Custom(out))
            },
        }
    }
}

/// Copies a vector of scalar bit patterns.
fn clone_u64s(v: &Vec<u64>) -> (r: Vec<u64>)
    ensures
        r@ == v@,
{
    let mut out: Vec<u64> = Vec::new();
    let mut i: usize = 0;
    while i < v.len()
        invariant
            i <= v.len(),
            out@ =~= v@.subrange(0, i as int),
        decreases v.len() - i,
    {
        out.push(v[i]);
        i = i + 1;
    }
    proof {
        assert(out@ =~= v@);
    }
    out
}

// ---------------------------------------------------------------------------
// Comparison
// ---------------------------------------------------------------------------

impl Statics {
    /// The fixed ordering an outcome imposes against any scalar, independent
    /// of the scalar's value: `Greater` orders as greater, `Less` as less,
    /// and `Equal`, `True` and `False` all order as equal.
    pub open spec fn spec_scalar_cmp(self) -> Ordering {
        match self {
            Statics::Greater => Ordering::Greater,
            Statics::Equal => Ordering::Equal,
            Statics::Less => Ordering::Less,
            Statics::True => Ordering::Equal,
            Statics::False => Ordering::Equal,
        }
    }

    /// Whether an outcome counts as equal to any scalar: only `Equal` and
    /// `True` do.
    pub open spec fn spec_scalar_eq(self) -> bool {
        match self {
            Statics::Greater => false,
            Statics::Equal => true,
            Statics::Less => false,
            Statics::True => true,
            Statics::False => false,
        }
    }

    /// The ordering of this outcome against a scalar (see
    /// [`Statics::spec_scalar_cmp`]).
    pub fn scalar_cmp(&self) -> (r: Ordering)
        ensures
            r == self.spec_scalar_cmp(),
    {
        match self {
            Statics::Greater => Ordering::Greater,
            Statics::Equal => Ordering::Equal,
            Statics::Less => Ordering::Less,
            Statics::True => Ordering::Equal,
            Statics::False => Ordering::Equal,
        }
    }

    /// Whether this outcome counts as equal to a scalar (see
    /// [`Statics::spec_scalar_eq`]).
    pub fn scalar_eq(&self) -> (r: bool)
        ensures
            r == self.spec_scalar_eq(),
    {
        match self {
            Statics::Equal => true,
            Statics::True => true,
            _ => false,
        }
    }
}

/// The opposite ordering.
pub open spec fn rev_ord(o: Ordering) -> Ordering {
    match o {
        Ordering::Less => Ordering::Greater,
        Ordering::Equal => Ordering::Equal,
        Ordering::Greater => Ordering::Less,
    }
}

/// The opposite ordering.
fn reversed(o: Ordering) -> (r: Ordering)
    ensures
        r == rev_ord(o),
{
    match o {
        Ordering::Less => Ordering::Greater,
        Ordering::Equal => Ordering::Equal,
        Ordering::Greater => Ordering::Less,
    }
}

/// Whether two orderings are the same.
fn ord_eq(a: Ordering, b: Ordering) -> (r: bool)
    ensures
        r == (a == b),
{
    match (a, b) {
        (Ordering::Less, Ordering::Less) => true,
        (Ordering::Equal, Ordering::Equal) => true,
        (Ordering::Greater, Ordering::Greater) => true,
        _ => false,
    }
}

/// The aggregate of per-element orderings: an empty collection or any
/// incomparable element makes the whole incomparable, and so does any
/// disagreement; otherwise the shared ordering is the result.
pub open spec fn agg_ords(os: Seq<Option<Ordering>>) -> Option<Ordering> {
    if os.len() == 0 {
        None
    } else if exists|i: int| 0 <= i < os.len() && (#[trigger] os[i]) is None {
        None
    } else if forall|i: int| 0 <= i < os.len() ==> #[trigger] os[i] == os[0] {
        os[0]
    } else {
        None
    }
}

/// The partial order of two values. Scalars order numerically; equal-length
/// vectors order by the aggregate of their element orderings; a scalar or a
/// vector against outcomes orders by the outcomes' fixed sentinel semantics,
/// reversed when the outcome stands on the right; everything else, composites
/// included, is incomparable.
pub open spec fn spec_compare(a: ValueV, b: ValueV) -> Option<Ordering> {
    match (a, b) {
        (ValueV::Single(x), ValueV::Single(y)) => cmp_bits(x, y),
        (ValueV::Array(x), ValueV::Array(y)) => if x.len() != y.len() {
            None
        } else {
            agg_ords(Seq::new(x.len(), |i: int| cmp_bits(x[i], y[i])))
        },
        (ValueV::Single(_), ValueV::Static(t)) => Some(rev_ord(t.spec_scalar_cmp())),
        (ValueV::Static(t), ValueV::Single(_)) => Some(t.spec_scalar_cmp()),
        (ValueV::Array(x), ValueV::Statics(t)) => if x.len() != t.len() {
            None
        } else {
            agg_ords(Seq::new(x.len(), |i: int| Some(rev_ord(t[i].spec_scalar_cmp()))))
        },
        (ValueV::Statics(t), ValueV::Array(x)) => if x.len() != t.len() {
            None
        } else {
            agg_ords(Seq::new(x.len(), |i: int| Some(t[i].spec_scalar_cmp())))
        },
        _ => None,
    }
}

impl OutputType {
    /// Compares two values under the partial order of [`spec_compare`]:
    /// incomparable pairs give `None`, never an error.
    #[verifier::loop_isolation(false)]
    #[verifier::rlimit(50)]
    pub fn compare(&self, other: &OutputType) -> (r: Option<Ordering>)
        ensures
            r == spec_compare(self@, other@),
    {
        match (self, other) {
            (OutputType::Single(x), OutputType::Single(y)) => num_cmp(*x, *y),
            (OutputType::Array(x), OutputType::Array(y)) => {
                if x.len() != y.len() {
                    return None;
                }
                if x.len() == 0 {
                    return None;
                }
                let ghost os = Seq::new(x@.len(), |i: int| cmp_bits(x@[i], y@[i]));
                let first = num_cmp(x[0], y[0]);
                match first {
                    None => {
                        assert(os[0] is None);
                        None
                    },
                    Some(f) => {
                        let mut i: usize = 1;
                        while i < x.len()
                            invariant
                                1 <= i <= x@.len(),
                                forall|k: int| 0 <= k < i ==> #[trigger] os[k] == Some(f),
                            decreases x@.len() - i,
                        {
                            let o = num_cmp(x[i], y[i]);
                            let keep = match o {
                                Some(oo) => ord_eq(oo, f),
                                None => false,
                            };
                            if !keep {
                                assert(os[i as int] != os[0]);
                                return None;
                            }
                            i = i + 1;
                        }
                        assert(!(exists|k: int| 0 <= k < os.len() && (#[trigger] os[k]) is None));
                        Some(f)
                    },
                }
            },
            (OutputType::Single(_), OutputType::Static(t)) => Some(reversed(t.scalar_cmp())),
            (OutputType::Static(t), OutputType::Single(_)) => Some(t.scalar_cmp()),
            (OutputType::Array(x), OutputType::Statics(t)) => {
                if x.len() != t.len() {
                    return None;
                }
                if x.len() == 0 {
                    return None;
                }
                let ghost os = Seq::new(
                    x@.len(),
                    |i: int| Some(rev_ord(t@[i].spec_scalar_cmp())),
                );
                let first = reversed(t[0].scalar_cmp());
                let mut i: usize = 1;
                while i < x.len()
                    invariant
                        1 <= i <= x@.len(),
                        forall|k: int| 0 <= k < i ==> #[trigger] os[k] == Some(first),
                    decreases x@.len() - i,
                {
                    let o = reversed(t[i].scalar_cmp());
                    if !ord_eq(o, first) {
                        assert(os[i as int] != os[0]);
                        return None;
                    }
                    i = i + 1;
                }
                assert(!(exists|k: int| 0 <= k < os.len() && (#[trigger] os[k]) is None));
                Some(first)
            },
            (OutputType::Statics(t), OutputType::Array(x)) => {
                if x.len() != t.len() {
                    return None;
                }
                if x.len() == 0 {
                    return None;
                }
                let ghost os = Seq::new(x@.len(), |i: int| Some(t@[i].spec_scalar_cmp()));
                let first = t[0].scalar_cmp();
                let mut i: usize = 1;
                while i < x.len()
                    invariant
                        1 <= i <= x@.len(),
                        forall|k: int| 0 <= k < i ==> #[trigger] os[k] == Some(first),
                    decreases x@.len() - i,
                {
                    let o = t[i].scalar_cmp();
                    if !ord_eq(o, first) {
                        assert(os[i as int] != os[0]);
                        return None;
                    }
                    i = i + 1;
                }
                assert(!(exists|k: int| 0 <= k < os.len() && (#[trigger] os[k]) is None));
                Some(first)
            },
            _ => None,
        }
    }
}

// ---------------------------------------------------------------------------
// Equality
// ---------------------------------------------------------------------------

/// Equality of values: structural, with numeric equality at the scalars (so
/// NaN equals nothing, and the two zeros are equal).
pub open spec fn spec_equals(a: ValueV, b: ValueV) -> bool
    decreases a, 0int,
{
    match (a, b) {
        (ValueV::Single(x), ValueV::Single(y)) => eq_bits(x, y),
        (ValueV::Array(x), ValueV::Array(y)) => x.len() == y.len() && (forall|i: int|
            0 <= i < x.len() ==> eq_bits(x[i], y[i])),
        (ValueV::Open, ValueV::Open) => true,
        (ValueV::Close, ValueV::Close) => true,
        (ValueV::High, ValueV::High) => true,
        (ValueV::Low, ValueV::Low) => true,
        (ValueV::Volume, ValueV::Volume) => true,
        (ValueV::Custom(x), ValueV::Custom(y)) => x.len() == y.len() && values_eq_from(x, y, 0),
        (ValueV::Static(s1), ValueV::Static(s2)) => s1 == s2,
        (ValueV::Statics(x), ValueV::Statics(y)) => x == y,
        _ => false,
    }
}

/// The children from index `i` on are pairwise equal.
pub open spec fn values_eq_from(x: Seq<ValueV>, y: Seq<ValueV>, i: int) -> bool
    decreases x, x.len() - i + 1,
{
    if i < 0 || i >= x.len() {
        true
    } else {
        spec_equals(x[i], y[i]) && values_eq_from(x, y, i + 1)
    }
}

/// Pairwise equality of all children is the pointwise equality of each.
pub proof fn lemma_values_eq_from(x: Seq<ValueV>, y: Seq<ValueV>, i: int)
    requires
        0 <= i <= x.len(),
    ensures
        values_eq_from(x, y, i) <==> (forall|k: int|
            i <= k < x.len() ==> #[trigger] spec_equals(x[k], y[k])),
    decreases x.len() - i,
{
    if i < x.len() {
        lemma_values_eq_from(x, y, i + 1);
        if values_eq_from(x, y, i) {
            assert forall|k: int| i <= k < x.len() implies #[trigger] spec_equals(x[k], y[k]) by {
                if k > i {
                    assert(spec_equals(x[k], y[k]));
                }
            }
        } else {
            if spec_equals(x[i], y[i]) {
                assert(!values_eq_from(x, y, i + 1));
            }
        }
    }
}

impl Clone for OutputType {
    /// Structure-preserving copy of a value tree.
    #[verifier::loop_isolation(false)]
    fn clone(&self) -> (r: Self)
        ensures
            r@ == self@,
        decreases *self,
    {
        match self {
            OutputType::Single(x) => OutputType::Single(*x),
            OutputType::Array(a) => OutputType::Array(clone_u64s(a)),
            OutputType::Open => OutputType::Open,
            OutputType::Close => OutputType::Close,
            OutputType::High => OutputType::High,
            OutputType::Low => OutputType::Low,
            OutputType::Volume => OutputType::Volume,
            OutputType::Static(st) => OutputType::Static(*st),
            OutputType::Statics(ss) => OutputType::Statics(clone_statics(ss)),
            OutputType::Custom(vec) => {
                let mut out: Vec<OutputType> = Vec::new();
                let mut i: usize = 0;
                while i < vec.len()
                    invariant
                        i <= vec.len(),
                        out@.len() == i,
                        forall|k: int| 0 <= k < i ==> value_view(#[trigger] out@[k]) == value_view(
                            vec@[k],
                        ),
                    decreases vec.len() - i,
                {
                    proof {
                        assert(*vec == self->Custom_0);
                        assert(decreases_to!(*self => self->Custom_0));
                        assert(decreases_to!(*vec => vec@[i as int]));
                    }
                    out.push(vec[i].clone());
                    i = i + 1;
                }
                proof {
                    lemma_value_views(out@);
                    lemma_value_views(vec@);
                    assert(value_views(out@, 0) =~= value_views(vec@, 0));
                }
                OutputType::Custom(out)
            },
        }
    }
}

impl PartialEq for OutputType {
    /// Equality of values under [`spec_equals`].
    #[verifier::loop_isolation(false)]
    #[verifier::rlimit(50)]
    fn eq(&self, other: &Self) -> (r: bool)
        decreases *self,
    {
        match (self, other) {
            (OutputType::Single(x), OutputType::Single(y)) => num_eq(*x, *y),
            (OutputType::Array(x), OutputType::Array(y)) => {
                if x.len() != y.len() {
                    return false;
                }
                let mut i: usize = 0;
                while i < x.len()
                    invariant
                        i <= x@.len(),
                        x@.len() == y@.len(),
                        forall|k: int| 0 <= k < i ==> eq_bits(x@[k], y@[k]),
                    decreases x@.len() - i,
                {
                    if !num_eq(x[i], y[i]) {
                        return false;
                    }
                    i = i + 1;
                }
                true
            },
            (OutputType::Open, OutputType::Open) => true,
            (OutputType::Close, OutputType::Close) => true,
            (OutputType::High, OutputType::High) => true,
            (OutputType::Low, OutputType::Low) => true,
            (OutputType::Volume, OutputType::Volume) => true,
            (OutputType::Custom(x), OutputType::Custom(y)) => {
                let ghost vx = value_views(x@, 0);
                let ghost vy = value_views(y@, 0);
                proof {
                    lemma_value_views(x@);
                    lemma_value_views(y@);
                }
                if x.len() != y.len() {
                    return false;
                }
                let mut i: usize = 0;
                while i < x.len()
                    invariant
                        i <= x@.len(),
                        x@.len() == y@.len(),
                        forall|k: int| 0 <= k < i ==> #[trigger] spec_equals(vx[k], vy[k]),
                    decreases x@.len() - i,
                {
                    proof {
                        assert(*x == self->Custom_0);
                        assert(decreases_to!(*self => self->Custom_0));
                        assert(decreases_to!(*x => x@[i as int]));
                    }
                    if !(x[i] == y[i]) {
                        proof {
                            lemma_values_eq_from(vx, vy, 0);
                            assert(!spec_equals(vx[i as int], vy[i as int]));
                            assert(!values_eq_from(vx, vy, 0));
                            assert(!spec_equals(self@, other@));
                        }
                        return false;
                    }
                    i = i + 1;
                }
                proof {
                    lemma_values_eq_from(vx, vy, 0);
                }
                true
            },
            (OutputType::Static(a), OutputType::Static(b)) => a == b,
            (OutputType::Statics(x), OutputType::Statics(y)) => {
                if x.len() != y.len() {
                    return false;
                }
                let mut i: usize = 0;
                while i < x.len()
                    invariant
                        i <= x@.len(),
                        x@.len() == y@.len(),
                        forall|k: int| 0 <= k < i ==> x@[k] == y@[k],
                    decreases x@.len() - i,
                {
                    let same = match (&x[i], &y[i]) {
                        (Statics::Greater, Statics::Greater) => true,
                        (Statics::Equal, Statics::Equal) => true,
                        (Statics::Less, Statics::Less) => true,
                        (Statics::True, Statics::True) => true,
                        (Statics::False, Statics::False) => true,
                        _ => false,
                    };
                    if !same {
                        assert(x@[i as int] != y@[i as int]);
                        return false;
                    }
                    i = i + 1;
                }
                assert(x@ =~= y@);
                true
            },
            _ => false,
        }
    }
}

impl vstd::std_specs::cmp::PartialEqSpecImpl for OutputType {
    open spec fn obeys_eq_spec() -> bool {
        true
    }

    open spec fn eq_spec(&self, other: &Self) -> bool {
        spec_equals(self@, other@)
    }
}

// ---------------------------------------------------------------------------
// Conversions
// ---------------------------------------------------------------------------

/// The name of a value's variant, as used in error messages.
pub open spec fn spec_variant_name(v: ValueV) -> Seq<char> {
    match v {
        ValueV::Single(_) => "Single"@,
        ValueV::Array(_) => "Array"@,
        ValueV::Open => "Open"@,
        ValueV::Close => "Close"@,
        ValueV::High => "High"@,
        ValueV::Low => "Low"@,
        ValueV::Volume => "Volume"@,
        ValueV::Custom(_) => "Custom"@,
        ValueV::Static(_) => "Static"@,
        ValueV::Statics(_) => "Statics"@,
    }
}

/// What extracting a scalar returns: the scalar of a `Single`, or the name
/// of the refused variant.
pub open spec fn spec_try_single(v: ValueV) -> Result<u64, Seq<char>> {
    match v {
        ValueV::Single(x) => Ok(x),
        _ => Err(spec_variant_name(v)),
    }
}

/// What extracting a vector returns: the scalars of an `Array`, or the name
/// of the refused variant.
pub open spec fn spec_try_array(v: ValueV) -> Result<Seq<u64>, Seq<char>> {
    match v {
        ValueV::Array(a) => Ok(a),
        _ => Err(spec_variant_name(v)),
    }
}

impl OutputType {
    /// The name of this value's variant.
    pub fn variant_name(&self) -> (r: &'static str)
        ensures
            r@ == spec_variant_name(self@),
    {
        match self {
            OutputType::Single(_) => "Single",
            OutputType::Array(_) => "Array",
            OutputType::Open => "Open",
            OutputType::Close => "Close",
            OutputType::High => "High",
            OutputType::Low => "Low",
            OutputType::Volume => "Volume",
            OutputType::Custom(_) => "Custom",
            OutputType::Static(_) => "Static",
            OutputType::Statics(_) => "Statics",
        }
    }

    /// Wraps a scalar bit pattern as a value.
    pub fn from_single(value: u64) -> (r: OutputType)
        ensures
            r@ == ValueV::Single(value),
    {
        OutputType::Single(value)
    }

    /// Wraps a vector of scalar bit patterns as a value.
    pub fn from_array(values: Vec<u64>) -> (r: OutputType)
        ensures
            r@ == ValueV::Array(values@),
    {
        OutputType::Array(values)
    }

    /// Extracts the scalar of a `Single`; every other variant is refused
    /// with an error naming it.
    pub fn try_single(self) -> (r: TaUtilsResult<u64>)
        ensures
            match spec_try_single(self@) {
                Ok(x) => r matches Ok(v) && v == x,
                Err(name) => r matches Err(e) && (e matches TaUtilsError::IncorrectOutputType {
                    expected,
                    actual,
                } && expected@ == "scalar"@ && actual@ == name),
            },
    {
        match self {
            OutputType::Single(v) => Ok(v),
            other => Err(TaUtilsError::IncorrectOutputType {
                expected: String::from_str("scalar"),
                actual: String::from_str(other.variant_name()),
            }),
        }
    }

    /// Extracts the scalars of an `Array`; every other variant is refused
    /// with an error naming it.
    pub fn try_array(self) -> (r: TaUtilsResult<Vec<u64>>)
        ensures
            match spec_try_array(self@) {
                Ok(a) => r matches Ok(v) && v@ == a,
                Err(name) => r matches Err(e) && (e matches TaUtilsError::IncorrectOutputType {
                    expected,
                    actual,
                } && expected@ == "vector"@ && actual@ == name),
            },
    {
        match self {
            OutputType::Array(v) => Ok(v),
            other => Err(TaUtilsError::IncorrectOutputType {
                expected: String::from_str("vector"),
                actual: String::from_str(other.variant_name()),
            }),
        }
    }
}

// ---------------------------------------------------------------------------
// Laws
// ---------------------------------------------------------------------------

/// A flat shape of positive size validates to itself; a flat shape of size
/// zero is rejected, and the error reports that shape.
pub proof fn lemma_validate_flat(n: nat)
    ensures
        n > 0 ==> spec_validate(ShapeV::Shape(n)) == Ok::<ShapeV, ShapeV>(ShapeV::Shape(n)),
        n == 0 ==> spec_validate(ShapeV::Shape(n)) == Err::<ShapeV, ShapeV>(ShapeV::Shape(0)),
{
}

/// A non-empty tensor whose children are all single elements collapses to a
/// flat shape of their count.
pub proof fn lemma_validate_collapse(cs: Seq<ShapeV>)
    requires
        cs.len() > 0,
        forall|i: int| 0 <= i < cs.len() ==> cs[i] == ShapeV::Shape(1),
    ensures
        spec_validate(ShapeV::Tensor(cs)) == Ok::<ShapeV, ShapeV>(ShapeV::Shape(cs.len())),
{
}

proof fn lemma_first_invalid_none(cs: Seq<ShapeV>, i: int)
    requires
        forall|k: int| 0 <= k < cs.len() ==> spec_validate(#[trigger] cs[k]) is Ok,
    ensures
        first_invalid_from(cs, i) is None,
    decreases cs.len() - i + 1,
{
    if 0 <= i < cs.len() {
        lemma_first_invalid_none(cs, i + 1);
    }
}

/// A non-empty tensor with at least one child that is not a single element
/// keeps its structure when every child validates: no collapse happens.
pub proof fn lemma_validate_keeps_tensor(cs: Seq<ShapeV>)
    requires
        cs.len() > 0,
        exists|i: int| 0 <= i < cs.len() && #[trigger] cs[i] != ShapeV::Shape(1),
        forall|i: int| 0 <= i < cs.len() ==> spec_validate(#[trigger] cs[i]) is Ok,
    ensures
        spec_validate(ShapeV::Tensor(cs)) == Ok::<ShapeV, ShapeV>(ShapeV::Tensor(cs)),
{
    lemma_first_invalid_none(cs, 0);
}

/// Resolution is idempotent: what a value resolves to resolves to itself,
/// against the same sample.
pub proof fn lemma_resolve_idempotent(v: ValueV, s: SampleV)
    ensures
        spec_resolve(v, s) matches Ok(r) ==> spec_resolve(r, s) == Ok::<ValueV, ()>(r),
{
    if let ValueV::Custom(cs) = v {
        if children_ok(cs, s, 0) {
            let rs = resolved_children(cs, 0, s);
            lemma_children_ok(cs, s, 0);
            lemma_resolved_children(cs, s);
            assert forall|k: int| 0 <= k < rs.len() implies #[trigger] resolve_child_ok(rs[k], s)
                && resolved_child(rs[k], s) == rs[k] by {
                assert(resolve_child_ok(cs[k], s));
                assert(rs[k] == resolved_child(cs[k], s));
            }
            lemma_children_ok(rs, s, 0);
            lemma_resolved_children(rs, s);
            assert forall|k: int| 0 <= k < rs.len() implies resolved_children(rs, 0, s)[k]
                == rs[k] by {
                assert(resolve_child_ok(rs[k], s));
                assert(resolved_child(rs[k], s) == rs[k]);
            }
            assert(resolved_children(rs, 0, s) =~= rs);
        }
    }
}

/// A scalar round-trips: a `Single` value gives back exactly its scalar, a
/// scalar extracted came from exactly that `Single` value, and every other
/// variant is refused.
pub proof fn lemma_single_round_trip(v: ValueV)
    ensures
        forall|x: u64| spec_try_single(ValueV::Single(x)) == Ok::<u64, Seq<char>>(x),
        spec_try_single(v) matches Ok(x) ==> v == ValueV::Single(x),
        !(v is Single) ==> spec_try_single(v) is Err,
{
}

/// A vector round-trips: an `Array` value gives back exactly its scalars, a
/// vector extracted came from exactly that `Array` value, and every other
/// variant is refused.
pub proof fn lemma_array_round_trip(v: ValueV)
    ensures
        forall|a: Seq<u64>| spec_try_array(ValueV::Array(a)) == Ok::<Seq<u64>, Seq<char>>(a),
        spec_try_array(v) matches Ok(a) ==> v == ValueV::Array(a),
        !(v is Array) ==> spec_try_array(v) is Err,
{
}

/// Copies a vector of comparison outcomes.
fn clone_statics(v: &Vec<Statics>) -> (r: Vec<Statics>)
    ensures
        r@ == v@,
{
    let mut out: Vec<Statics> = Vec::new();
    let mut i: usize = 0;
    while i < v.len()
        invariant
            i <= v.len(),
            out@ =~= v@.subrange(0, i as int),
        decreases v.len() - i,
    {
        out.push(v[i]);
        i = i + 1;
    }
    proof {
        assert(out@ =~= v@);
    }
    out
}

} // verus!

