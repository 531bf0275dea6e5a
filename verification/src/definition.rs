//! One parameter of a command: what it is called, whether it must be
//! given, how many tokens it takes, and how it shows in usage text.
use crate::text::{join, join_strings, str_views, views};
use vstd::prelude::*;
use vstd::string::*;

verus! {

/// How many tokens a parameter takes.
#[derive(Clone, Copy, Debug, PartialEq, Eq, Structural)]
pub enum ArgumentArity {
    /// Exactly one token.
    Single,
    /// Every token that is left.
    Remainder,
}

/// One named parameter of a command.
#[derive(Clone, Debug)]
pub struct ArgumentDefinition {
    pub name: &'static str,
    pub description: &'static str,
    pub required: bool,
    pub arity: ArgumentArity,
    pub default: Option<Vec<String>>,
}

/// A parameter as plain values.
pub struct DefinitionView {
    pub name: Seq<char>,
    pub description: Seq<char>,
    pub required: bool,
    pub arity: ArgumentArity,
    pub default: Option<Seq<Seq<char>>>,
}

impl View for ArgumentDefinition {
    type V = DefinitionView;

    open spec fn view(&self) -> DefinitionView {
        DefinitionView {
            name: self.name@,
            description: self.description@,
            required: self.required,
            arity: self.arity,
            default: match self.default {
                Some(v) => Some(views(v@)),
                None => None,
            },
        }
    }
}

/// The views of a sequence of parameters.
pub open spec fn definition_views(v: Seq<ArgumentDefinition>) -> Seq<DefinitionView> {
    Seq::new(v.len(), |i: int| v[i]@)
}

/// The values a parameter falls back to when no token is left for it.
pub open spec fn fallback(d: DefinitionView) -> Seq<Seq<char>> {
    match d.default {
        Some(v) => v,
        None => Seq::empty(),
    }
}

/// The token that stands for a parameter in a usage line.
pub open spec fn usage_token_of(d: DefinitionView) -> Seq<char> {
    let base = if d.arity == ArgumentArity::Single {
        d.name
    } else {
        d.name + "..."@
    };
    let token = if d.required {
        "<"@ + base + ">"@
    } else {
        "["@ + base + "]"@
    };
    if d.arity == ArgumentArity::Single && d.default is Some && d.default->0.len() > 0 {
        token + "="@ + d.default->0[0]
    } else {
        token
    }
}

/// The default of a parameter as it is shown in its summary.
pub open spec fn rendered_default(d: DefinitionView) -> Seq<char>
    recommends
        d.default is Some,
        d.default->0.len() > 0,
{
    if d.arity == ArgumentArity::Single {
        d.default->0[0]
    } else {
        join(d.default->0, " "@)
    }
}

/// The one-line summary of a parameter.
pub open spec fn summary_of(d: DefinitionView) -> Seq<char> {
    let requirement = if d.required {
        "required"@
    } else {
        "optional"@
    };
    let arity = if d.arity == ArgumentArity::Single {
        "single"@
    } else {
        "variadic"@
    };
    let head = d.name + " ("@ + requirement + " "@ + arity + "): "@ + d.description;
    if d.default is Some && d.default->0.len() > 0 {
        head + " [default: "@ + rendered_default(d) + "]"@
    } else {
        head
    }
}

impl ArgumentDefinition {
    /// A required parameter of one token.
    pub fn required(name: &'static str, description: &'static str) -> (r: Self)
        ensures
            r@ == (DefinitionView {
                name: name@,
                description: description@,
                required: true,
                arity: ArgumentArity::Single,
                default: None,
            }),
    {
        Self { name, description, required: true, arity: ArgumentArity::Single, default: None }
    }

    /// An optional parameter of one token, without a default.
    pub fn optional(name: &'static str, description: &'static str) -> (r: Self)
        ensures
            r@ == (DefinitionView {
                name: name@,
                description: description@,
                required: false,
                arity: ArgumentArity::Single,
                default: None,
            }),
    {
        Self { name, description, required: false, arity: ArgumentArity::Single, default: None }
    }

    /// An optional parameter of one token that falls back to `default`.
    pub fn optional_with_default(
        name: &'static str,
        description: &'static str,
        default: &str,
    ) -> (r: Self)
        ensures
            r@ == (DefinitionView {
                name: name@,
                description: description@,
                required: false,
                arity: ArgumentArity::Single,
                default: Some(seq![default@]),
            }),
    {
        let mut values: Vec<String> = Vec::new();
        values.push(String::from_str(default));
        assert(views(values@) =~= seq![default@]);
        Self {
            name,
            description,
            required: false,
            arity: ArgumentArity::Single,
            default: Some(values),
        }
    }

    /// A required parameter that takes every token that is left.
    pub fn required_remainder(name: &'static str, description: &'static str) -> (r: Self)
        ensures
            r@ == (DefinitionView {
                name: name@,
                description: description@,
                required: true,
                arity: ArgumentArity::Remainder,
                default: None,
            }),
    {
        Self { name, description, required: true, arity: ArgumentArity::Remainder, default: None }
    }

    /// An optional parameter that takes every token that is left.
    pub fn optional_remainder(name: &'static str, description: &'static str) -> (r: Self)
        ensures
            r@ == (DefinitionView {
                name: name@,
                description: description@,
                required: false,
                arity: ArgumentArity::Remainder,
                default: None,
            }),
    {
        Self { name, description, required: false, arity: ArgumentArity::Remainder, default: None }
    }

    /// An optional parameter that takes every token that is left and falls
    /// back to `default` when none is.
    pub fn optional_remainder_with_default(
        name: &'static str,
        description: &'static str,
        default: &[&str],
    ) -> (r: Self)
        ensures
            r@ == (DefinitionView {
                name: name@,
                description: description@,
                required: false,
                arity: ArgumentArity::Remainder,
                default: Some(str_views(default@)),
            }),
    {
        let mut values: Vec<String> = Vec::new();
        let mut i: usize = 0;
        while i < default.len()
            invariant
                i <= default.len(),
                values@.len() == i,
                forall|j: int| 0 <= j < i ==> (#[trigger] values@[j])@ == default@[j]@,
            decreases default.len() - i,
        {
            values.push(String::from_str(default[i]));
            i = i + 1;
        }
        assert(views(values@) =~= str_views(default@));
        Self {
            name,
            description,
            required: false,
            arity: ArgumentArity::Remainder,
            default: Some(values),
        }
    }

    /// The token that stands for this parameter in a usage line: the name
    /// in angle brackets when required and in square brackets when not,
    /// followed by `...` inside the brackets for a remainder, and by `=`
    /// and the default for a single-token parameter that has one.
    pub fn usage_token(&self) -> (r: String)
        ensures
            r@ == usage_token_of(self@),
    {
        let mut token = if self.required {
            String::from_str("<")
        } else {
            String::from_str("[")
        };
        token.append(self.name);
        match self.arity {
            ArgumentArity::Single => {},
            ArgumentArity::Remainder => {
                token.append("...");
            },
        }
        if self.required {
            token.append(">");
        } else {
            token.append("]");
        }
        match self.arity {
            ArgumentArity::Single => {
                match &self.default {
                    Some(default) => {
                        if default.len() > 0 {
                            token.append("=");
                            token.append(default[0].as_str());
                        }
                    },
                    None => {},
                }
            },
            ArgumentArity::Remainder => {},
        }
        token
    }

    /// The summary line of this parameter: name, requirement and arity,
    /// description, and the default where there is a non-empty one.
    pub fn summary(&self) -> (r: String)
        ensures
            r@ == summary_of(self@),
    {
        let mut summary = String::from_str(self.name);
        summary.append(" (");
        if self.required {
            summary.append("required");
        } else {
            summary.append("optional");
        }
        summary.append(" ");
        match self.arity {
            ArgumentArity::Single => {
                summary.append("single");
            },
            ArgumentArity::Remainder => {
                summary.append("variadic");
            },
        }
        summary.append("): ");
        summary.append(self.description);
        match &self.default {
            Some(default) => {
                if default.len() > 0 {
                    summary.append(" [default: ");
                    match self.arity {
                        ArgumentArity::Single => {
                            summary.append(default[0].as_str());
                        },
                        ArgumentArity::Remainder => {
                            let rendered = join_strings(default.as_slice(), " ");
                            summary.append(rendered.as_str());
                        },
                    }
                    summary.append("]");
                }
            },
            None => {},
        }
        summary
    }
}

} // verus!
