use vstd::prelude::*;
use vstd::string::StringExecFns;

verus! {

/// A named sub-value of an entity: one of its anchor points, or one coordinate.
#[derive(Clone, Copy, Debug, PartialEq, Eq, Structural)]
pub enum Prop {
    /// The entity's own point (`self`).
    Own,
    /// A line's first endpoint (`start`).
    Start,
    /// A line's computed midpoint (`mid`).
    Mid,
    /// A line's second endpoint (`end`).
    End,
    /// The horizontal coordinate (`x`).
    X,
    /// The vertical coordinate (`y`).
    Y,
}

/// One element of a reference path.
#[derive(Clone, Copy, Debug, PartialEq, Eq, Structural)]
pub enum DataRefPathEl {
    /// Selects the collection of drawing steps.
    Step,
    /// Selects the collection of free-standing data.
    Data,
    /// Selects the entity with this id in the selected collection.
    WithId(usize),
    /// Selects a named sub-value of the selected entity.
    PropName(Prop),
}

/// An address of a quantity: collection, id, then property names.
#[derive(Debug, PartialEq, Eq)]
pub struct DataRef(pub Vec<DataRefPathEl>);

impl View for DataRef {
    type V = Seq<DataRefPathEl>;

    open spec fn view(&self) -> Seq<DataRefPathEl> {
        self.0@
    }
}

impl Clone for DataRef {
    fn clone(&self) -> (r: DataRef)
        ensures
            r@ == self@,
    {
        DataRef(self.0.clone())
    }
}

/// The text of a property name.
pub open spec fn prop_text(p: Prop) -> Seq<char> {
    match p {
        Prop::Own => "self"@,
        Prop::Start => "start"@,
        Prop::Mid => "mid"@,
        Prop::End => "end"@,
        Prop::X => "x"@,
        Prop::Y => "y"@,
    }
}

/// The text of one decimal digit.
pub open spec fn digit_text(d: nat) -> Seq<char> {
    if d == 0 {
        "0"@
    } else if d == 1 {
        "1"@
    } else if d == 2 {
        "2"@
    } else if d == 3 {
        "3"@
    } else if d == 4 {
        "4"@
    } else if d == 5 {
        "5"@
    } else if d == 6 {
        "6"@
    } else if d == 7 {
        "7"@
    } else if d == 8 {
        "8"@
    } else {
        "9"@
    }
}

/// The decimal rendering of a natural number, without leading zeros.
pub open spec fn decimal(n: nat) -> Seq<char>
    decreases n,
{
    if n < 10 {
        digit_text(n)
    } else {
        decimal(n / 10) + digit_text(n % 10)
    }
}

/// The rendering of one path element.
pub open spec fn el_text(el: DataRefPathEl) -> Seq<char> {
    match el {
        DataRefPathEl::Step => "step"@,
        DataRefPathEl::Data => "data"@,
        DataRefPathEl::WithId(id) => "["@ + decimal(id as nat) + "]"@,
        DataRefPathEl::PropName(p) => "."@ + prop_text(p),
    }
}

/// The rendering of a whole path: its elements' renderings, concatenated.
pub open spec fn desc_spec(path: Seq<DataRefPathEl>) -> Seq<char>
    decreases path.len(),
{
    if path.len() == 0 {
        Seq::empty()
    } else {
        desc_spec(path.drop_last()) + el_text(path.last())
    }
}

impl Prop {
    /// The name under which this property is written in a path.
    pub fn name(&self) -> (r: &'static str)
        ensures
            r@ == prop_text(*self),
    {
        match self {
            Prop::Own => "self",
            Prop::Start => "start",
            Prop::Mid => "mid",
            Prop::End => "end",
            Prop::X => "x",
            Prop::Y => "y",
        }
    }
}

fn digit_str(d: usize) -> (r: &'static str)
    requires
        d < 10,
    ensures
        r@ == digit_text(d as nat),
{
    if d == 0 {
        "0"
    } else if d == 1 {
        "1"
    } else if d == 2 {
        "2"
    } else if d == 3 {
        "3"
    } else if d == 4 {
        "4"
    } else if d == 5 {
        "5"
    } else if d == 6 {
        "6"
    } else if d == 7 {
        "7"
    } else if d == 8 {
        "8"
    } else {
        "9"
    }
}

fn append_decimal(s: &mut String, n: usize)
    ensures
        final(s)@ == old(s)@ + decimal(n as nat),
    decreases n,
{
    if n >= 10 {
        append_decimal(s, n / 10);
        s.append(digit_str(n % 10));
        assert(final(s)@ =~= old(s)@ + decimal(n as nat));
    } else {
        s.append(digit_str(n));
    }
}

fn append_el(s: &mut String, el: DataRefPathEl)
    ensures
        final(s)@ == old(s)@ + el_text(el),
{
    match el {
        DataRefPathEl::Step => s.append("step"),
        DataRefPathEl::Data => s.append("data"),
        DataRefPathEl::WithId(id) => {
            s.append("[");
            append_decimal(s, id);
            s.append("]");
            assert(final(s)@ =~= old(s)@ + el_text(el));
        },
        DataRefPathEl::PropName(p) => {
            s.append(".");
            s.append(p.name());
            assert(final(s)@ =~= old(s)@ + el_text(el));
        },
    }
}

impl DataRef {
    /// A human-readable rendering of the path, such as `step[3].end`.
    pub fn desc(&self) -> (r: String)
        ensures
            r@ == desc_spec(self@),
    {
        let mut out = String::new();
        let mut i: usize = 0;
        while i < self.0.len()
            invariant
                i <= self@.len(),
                out@ == desc_spec(self@.subrange(0, i as int)),
            decreases self@.len() - i,
        {
            append_el(&mut out, self.0[i]);
            assert(self@.subrange(0, i + 1).drop_last() =~= self@.subrange(0, i as int));
            i += 1;
        }
        assert(self@.subrange(0, self@.len() as int) =~= self@);
        out
    }
}

} // verus!
