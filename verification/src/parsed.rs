//! The arguments of one call after binding, and how they are looked up.
use crate::text::{join, join_strings, str_eq, str_views, views};
use vstd::prelude::*;
use vstd::string::*;

verus! {

/// The arguments of one call, bound to the command's parameters.
#[derive(Debug)]
pub struct ParsedArguments {
    command_name: &'static str,
    raw: Vec<String>,
    order: Vec<&'static str>,
    values: Vec<Vec<String>>,
}

/// Bound arguments as plain values: `values[i]` belongs to `order[i]`.
pub struct ParsedView {
    pub command_name: Seq<char>,
    pub raw: Seq<Seq<char>>,
    pub order: Seq<Seq<char>>,
    pub values: Seq<Seq<Seq<char>>>,
}

/// The views of a sequence of string lists.
pub open spec fn nested_views(v: Seq<Vec<String>>) -> Seq<Seq<Seq<char>>> {
    Seq::new(v.len(), |i: int| views(v[i]@))
}

impl View for ParsedArguments {
    type V = ParsedView;

    closed spec fn view(&self) -> ParsedView {
        ParsedView {
            command_name: self.command_name@,
            raw: views(self.raw@),
            order: str_views(self.order@),
            values: nested_views(self.values@),
        }
    }
}

/// The values bound to `name`: those of its last declaration.
pub open spec fn lookup(
    order: Seq<Seq<char>>,
    values: Seq<Seq<Seq<char>>>,
    name: Seq<char>,
) -> Option<Seq<Seq<char>>>
    decreases order.len(),
{
    if order.len() == 0 || values.len() != order.len() {
        None
    } else if order.last() == name {
        Some(values.last())
    } else {
        lookup(order.drop_last(), values.drop_last(), name)
    }
}

/// The values bound to `name`, or nothing where it is not declared.
pub open spec fn list_of(p: ParsedView, name: Seq<char>) -> Seq<Seq<char>> {
    match lookup(p.order, p.values, name) {
        Some(v) => v,
        None => Seq::empty(),
    }
}

/// The first value bound to `name`, if it has one.
pub open spec fn first_value(p: ParsedView, name: Seq<char>) -> Option<Seq<char>> {
    match lookup(p.order, p.values, name) {
        Some(v) => if v.len() > 0 {
            Some(v[0])
        } else {
            None
        },
        None => None,
    }
}

/// The values of a parameter as one line of the readable rendering.
pub open spec fn pretty_line(p: ParsedView, i: int) -> Seq<char> {
    let rendered = match lookup(p.order, p.values, p.order[i]) {
        Some(v) => if v.len() > 0 {
            join(v, " "@)
        } else {
            "<none>"@
        },
        None => "<none>"@,
    };
    "  "@ + p.order[i] + ": "@ + rendered
}

/// The lines of the readable rendering of bound arguments.
pub open spec fn pretty_lines(p: ParsedView) -> Seq<Seq<char>> {
    Seq::new(
        p.order.len() + 1,
        |i: int|
            if i == 0 {
                p.command_name + " arguments:"@
            } else {
                pretty_line(p, i - 1)
            },
    )
}

/// The readable rendering of bound arguments.
pub open spec fn pretty_of(p: ParsedView) -> Seq<char> {
    if p.order.len() == 0 {
        p.command_name + ": <no arguments>"@
    } else {
        join(pretty_lines(p), "\n"@)
    }
}

impl ParsedArguments {
    /// Every declared name has its values: the two lists run in step.
    #[verifier::type_invariant]
    spec fn well_formed(&self) -> bool {
        self.order@.len() == self.values@.len()
    }

    /// Bound arguments from their parts, which run in step.
    pub(crate) fn new(
        command_name: &'static str,
        raw: Vec<String>,
        order: Vec<&'static str>,
        values: Vec<Vec<String>>,
    ) -> (r: Self)
        requires
            order@.len() == values@.len(),
        ensures
            r@ == (ParsedView {
                command_name: command_name@,
                raw: views(raw@),
                order: str_views(order@),
                values: nested_views(values@),
            }),
    {
        Self { command_name, raw, order, values }
    }

    /// The index of the last declaration of `name`.
    fn find(&self, name: &str) -> (r: Option<usize>)
        ensures
            match r {
                Some(i) => i < self.values@.len() && lookup(self@.order, self@.values, name@)
                    == Some(views(self.values@[i as int]@)),
                None => lookup(self@.order, self@.values, name@) is None,
            },
    {
        proof {
            use_type_invariant(self);
        }
        let ghost order = self@.order;
        let ghost values = self@.values;
        let mut i: usize = self.order.len();
        proof {
            assert(order.take(i as int) =~= order);
            assert(values.take(i as int) =~= values);
        }
        while i > 0
            invariant
                i <= self.order@.len(),
                self.order@.len() == self.values@.len(),
                order == self@.order,
                values == self@.values,
                lookup(order, values, name@) == lookup(
                    order.take(i as int),
                    values.take(i as int),
                    name@,
                ),
            decreases i,
        {
            proof {
                assert(order.take(i as int).drop_last() =~= order.take(i - 1));
                assert(values.take(i as int).drop_last() =~= values.take(i - 1));
            }
            i = i - 1;
            if str_eq(self.order[i], name) {
                return Some(i);
            }
        }
        None
    }

    /// The command these arguments belong to.
    pub fn command_name(&self) -> (r: &str)
        ensures
            r@ == self@.command_name,
    {
        self.command_name
    }

    /// The tokens that were parsed: trimmed, without the empty ones.
    pub fn raw(&self) -> (r: &[String])
        ensures
            views(r@) == self@.raw,
    {
        self.raw.as_slice()
    }

    /// The names of the parameters, in declaration order. Every one of
    /// them has an entry, possibly an empty one.
    pub fn names(&self) -> (r: &[&'static str])
        ensures
            str_views(r@) == self@.order,
            self@.order.len() == self@.values.len(),
            forall|i: int|
                0 <= i < self@.order.len() ==> lookup(
                    self@.order,
                    self@.values,
                    #[trigger] self@.order[i],
                ) is Some,
    {
        proof {
            use_type_invariant(self);
            assert forall|i: int| 0 <= i < self@.order.len() implies lookup(
                self@.order,
                self@.values,
                #[trigger] self@.order[i],
            ) is Some by {
                lemma_lookup_present(self@.order, self@.values, i);
            }
        }
        self.order.as_slice()
    }

    /// Whether `name` is bound to at least one value.
    pub fn has(&self, name: &str) -> (r: bool)
        ensures
            r == first_value(self@, name@) is Some,
    {
        match self.find(name) {
            Some(i) => self.values[i].len() > 0,
            None => false,
        }
    }

    /// The first value bound to `name`.
    pub fn get(&self, name: &str) -> (r: Option<&str>)
        ensures
            match (r, first_value(self@, name@)) {
                (Some(value), Some(expected)) => value@ == expected,
                (None, None) => true,
                _ => false,
            },
    {
        match self.find(name) {
            Some(i) => {
                if self.values[i].len() > 0 {
                    Some(self.values[i][0].as_str())
                } else {
                    None
                }
            },
            None => None,
        }
    }

    /// The first value bound to `name`, or `fallback` where it has none.
    pub fn get_or<'a>(&'a self, name: &str, fallback: &'a str) -> (r: &'a str)
        ensures
            r@ == match first_value(self@, name@) {
                Some(value) => value,
                None => fallback@,
            },
    {
        match self.get(name) {
            Some(value) => value,
            None => fallback,
        }
    }

    /// Every value bound to `name`, where `name` is declared.
    pub fn get_all(&self, name: &str) -> (r: Option<&[String]>)
        ensures
            match (r, lookup(self@.order, self@.values, name@)) {
                (Some(list), Some(expected)) => views(list@) == expected,
                (None, None) => true,
                _ => false,
            },
    {
        match self.find(name) {
            Some(i) => Some(self.values[i].as_slice()),
            None => None,
        }
    }

    /// The values bound to `name` joined by `separator`, where `name` is
    /// declared.
    pub fn get_joined(&self, name: &str, separator: &str) -> (r: Option<String>)
        ensures
            match (r, lookup(self@.order, self@.values, name@)) {
                (Some(text), Some(expected)) => text@ == join(expected, separator@),
                (None, None) => true,
                _ => false,
            },
    {
        match self.find(name) {
            Some(i) => Some(join_strings(self.values[i].as_slice(), separator)),
            None => None,
        }
    }

    /// Every value bound to `name`; nothing where `name` is not declared.
    pub fn list(&self, name: &str) -> (r: &[String])
        ensures
            views(r@) == list_of(self@, name@),
    {
        match self.find(name) {
            Some(i) => self.values[i].as_slice(),
            None => {
                let empty = vstd::slice::slice_subrange(self.raw.as_slice(), 0, 0);
                assert(views(empty@) =~= Seq::<Seq<char>>::empty());
                empty
            },
        }
    }

    /// A readable rendering: one line per parameter below a heading, or a
    /// single line for a command without parameters.
    pub fn pretty(&self) -> (r: String)
        ensures
            r@ == pretty_of(self@),
    {
        proof {
            use_type_invariant(self);
        }
        let mut head = String::from_str(self.command_name);
        if self.order.len() == 0 {
            head.append(": <no arguments>");
            return head;
        }
        head.append(" arguments:");
        let mut lines: Vec<String> = Vec::new();
        lines.push(head);
        let mut i: usize = 0;
        while i < self.order.len()
            invariant
                i <= self.order@.len(),
                lines@.len() == i + 1,
                forall|j: int| 0 <= j <= i ==> (#[trigger] lines@[j])@ == pretty_lines(self@)[j],
            decreases self.order.len() - i,
        {
            let mut line = String::from_str("  ");
            line.append(self.order[i]);
            line.append(": ");
            match self.find(self.order[i]) {
                Some(k) => {
                    if self.values[k].len() > 0 {
                        let rendered = join_strings(self.values[k].as_slice(), " ");
                        line.append(rendered.as_str());
                    } else {
                        line.append("<none>");
                    }
                },
                None => {
                    line.append("<none>");
                },
            }
            lines.push(line);
            i = i + 1;
        }
        assert(views(lines@) =~= pretty_lines(self@));
        join_strings(lines.as_slice(), "\n")
    }
}

/// A name that is declared has an entry.
pub proof fn lemma_lookup_present(order: Seq<Seq<char>>, values: Seq<Seq<Seq<char>>>, i: int)
    requires
        order.len() == values.len(),
        0 <= i < order.len(),
    ensures
        lookup(order, values, order[i]) is Some,
    decreases order.len(),
{
    if order.last() != order[i] {
        lemma_lookup_present(order.drop_last(), values.drop_last(), i);
    }
}

/// A name that has an entry is declared.
pub proof fn lemma_lookup_declared(
    order: Seq<Seq<char>>,
    values: Seq<Seq<Seq<char>>>,
    name: Seq<char>,
)
    requires
        lookup(order, values, name) is Some,
    ensures
        order.contains(name),
    decreases order.len(),
{
    if order.last() == name {
        assert(order[order.len() - 1] == name);
    } else {
        lemma_lookup_declared(order.drop_last(), values.drop_last(), name);
        let k = choose|k: int| 0 <= k < order.drop_last().len() && order.drop_last()[k] == name;
        assert(order[k] == name);
    }
}

} // verus!
