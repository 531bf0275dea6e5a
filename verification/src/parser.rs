//! The parser that binds raw tokens to a command's parameters, and what
//! holds of every parse.
use crate::definition::{
    summary_of, usage_token_of, definition_views, fallback, ArgumentArity, ArgumentDefinition,
    DefinitionView,
};
use crate::error::{ArgumentError, ErrorView};
use crate::parsed::{
    lemma_lookup_declared, lemma_lookup_present, lookup, nested_views, ParsedArguments,
    ParsedView,
};
use crate::text::{
    clone_strings, join, join_strings, str_views, tail_strings, trim, trimmed, views,
};
use vstd::prelude::*;
use vstd::string::*;

verus! {

/// A command's name with its parameters in declaration order.
#[derive(Clone, Debug)]
pub struct ArgumentParser {
    command_name: &'static str,
    specs: Vec<ArgumentDefinition>,
}

/// A parser as plain values.
pub struct ParserView {
    pub command_name: Seq<char>,
    pub specs: Seq<DefinitionView>,
}

impl View for ArgumentParser {
    type V = ParserView;

    closed spec fn view(&self) -> ParserView {
        ParserView { command_name: self.command_name@, specs: definition_views(self.specs@) }
    }
}

/// The usage tokens of the parameters, in order.
pub open spec fn usage_tokens(specs: Seq<DefinitionView>) -> Seq<Seq<char>> {
    Seq::new(specs.len(), |i: int| usage_token_of(specs[i]))
}

/// The usage line of a command.
pub open spec fn usage_of(p: ParserView) -> Seq<char> {
    if p.specs.len() == 0 {
        "Usage: "@ + p.command_name
    } else {
        "Usage: "@ + p.command_name + " "@ + join(usage_tokens(p.specs), " "@)
    }
}

/// The lines below a usage line: for each parameter, in declaration
/// order, two spaces and its summary.
pub open spec fn detail_lines(specs: Seq<DefinitionView>) -> Seq<Seq<char>> {
    Seq::new(specs.len(), |i: int| "  "@ + summary_of(specs[i]))
}

/// The usage line, followed for a command with parameters by one summary
/// line per parameter.
pub open spec fn usage_details_of(p: ParserView) -> Seq<char> {
    if p.specs.len() == 0 {
        usage_of(p)
    } else {
        usage_of(p) + "\n"@ + join(detail_lines(p.specs), "\n"@)
    }
}

/// The tokens that count: each argument trimmed, the empty ones dropped.
pub open spec fn clean_tokens(args: Seq<Seq<char>>) -> Seq<Seq<char>>
    decreases args.len(),
{
    if args.len() == 0 {
        Seq::empty()
    } else {
        let rest = clean_tokens(args.drop_last());
        let token = trimmed(args.last());
        if token.len() > 0 {
            rest.push(token)
        } else {
            rest
        }
    }
}

/// Whether parameter `i` takes the remaining input without being last.
pub open spec fn is_misplaced(specs: Seq<DefinitionView>, i: int) -> bool {
    0 <= i < specs.len() && specs[i].arity == ArgumentArity::Remainder && i != specs.len() - 1
}

/// The first misplaced parameter at or after `i`, or `specs.len()`.
pub open spec fn first_misplaced_from(specs: Seq<DefinitionView>, i: int) -> int
    decreases specs.len() - i,
{
    if i < 0 || i >= specs.len() {
        specs.len() as int
    } else if is_misplaced(specs, i) {
        i
    } else {
        first_misplaced_from(specs, i + 1)
    }
}

/// How many tokens the first `k` parameters take from `queue`.
pub open spec fn consumed_upto(specs: Seq<DefinitionView>, queue: Seq<Seq<char>>, k: int) -> int {
    if 0 < k <= specs.len() && specs[k - 1].arity == ArgumentArity::Remainder {
        queue.len() as int
    } else if k < queue.len() {
        k
    } else {
        queue.len() as int
    }
}

/// The values bound to parameter `i`.
pub open spec fn bound_value(
    specs: Seq<DefinitionView>,
    queue: Seq<Seq<char>>,
    i: int,
) -> Seq<Seq<char>> {
    if i >= queue.len() {
        fallback(specs[i])
    } else if specs[i].arity == ArgumentArity::Single {
        seq![queue[i]]
    } else {
        queue.skip(i)
    }
}

/// Whether parameter `i` is required and gets neither a token nor a default.
pub open spec fn is_missing(specs: Seq<DefinitionView>, queue: Seq<Seq<char>>, i: int) -> bool {
    i >= queue.len() && specs[i].default is None && specs[i].required
}

/// The names of the missing parameters among the first `k`, in order.
pub open spec fn missing_upto(
    specs: Seq<DefinitionView>,
    queue: Seq<Seq<char>>,
    k: int,
) -> Seq<Seq<char>>
    decreases k,
{
    if k <= 0 {
        Seq::empty()
    } else {
        let rest = missing_upto(specs, queue, k - 1);
        if is_missing(specs, queue, k - 1) {
            rest.push(specs[k - 1].name)
        } else {
            rest
        }
    }
}

/// The values bound to every parameter, in declaration order.
pub open spec fn bound_values(
    specs: Seq<DefinitionView>,
    queue: Seq<Seq<char>>,
) -> Seq<Seq<Seq<char>>> {
    Seq::new(specs.len(), |i: int| bound_value(specs, queue, i))
}

/// The names of the parameters, in declaration order.
pub open spec fn names_of(specs: Seq<DefinitionView>) -> Seq<Seq<char>> {
    Seq::new(specs.len(), |i: int| specs[i].name)
}

/// The message for a parameter that takes the remaining input without
/// being last.
pub open spec fn misplaced_message(name: Seq<char>) -> Seq<char> {
    "Argument '"@ + name + "' captures the remaining input and must be the final argument"@
}

/// The message for tokens that no parameter takes.
pub open spec fn unexpected_message(extras: Seq<Seq<char>>) -> Seq<char> {
    "Unexpected argument(s) starting at '"@ + join(extras, " "@) + "'"@
}

/// The message for required parameters that got no value.
pub open spec fn missing_message(names: Seq<Seq<char>>) -> Seq<char> {
    "Missing required argument(s): "@ + join(names, ", "@)
}

/// Why binding `queue` to `specs` fails, if it does: a misplaced remainder
/// first, then surplus tokens, then missing required parameters.
pub open spec fn failure_of(specs: Seq<DefinitionView>, queue: Seq<Seq<char>>) -> Option<
    Seq<char>,
> {
    let k = first_misplaced_from(specs, 0);
    let used = consumed_upto(specs, queue, specs.len() as int);
    let missing = missing_upto(specs, queue, specs.len() as int);
    if k < specs.len() {
        Some(misplaced_message(specs[k].name))
    } else if used < queue.len() {
        Some(unexpected_message(queue.skip(used)))
    } else if missing.len() > 0 {
        Some(missing_message(missing))
    } else {
        None
    }
}

/// What parsing `args` with `p` gives: the binding of the tokens that
/// count.
pub open spec fn parse_of(p: ParserView, args: Seq<Seq<char>>) -> Result<ParsedView, ErrorView> {
    bind_of(p, clean_tokens(args))
}

/// What binding the tokens `queue` to the parameters of `p` gives.
pub open spec fn bind_of(p: ParserView, queue: Seq<Seq<char>>) -> Result<ParsedView, ErrorView> {
    match failure_of(p.specs, queue) {
        Some(message) => Err(
            ErrorView { command: p.command_name, message, usage: usage_details_of(p) },
        ),
        None => Ok(
            ParsedView {
                command_name: p.command_name,
                raw: queue,
                order: names_of(p.specs),
                values: bound_values(p.specs, queue),
            },
        ),
    }
}

impl ArgumentParser {
    /// A parser for `command_name` with the given parameters.
    pub fn new(command_name: &'static str, specs: Vec<ArgumentDefinition>) -> (r: Self)
        ensures
            r@ == (ParserView { command_name: command_name@, specs: definition_views(specs@) }),
    {
        Self { command_name, specs }
    }

    /// Starts a parser for `command_name` without parameters.
    pub fn builder(command_name: &'static str) -> (r: ArgumentParserBuilder)
        ensures
            r@ == (ParserView { command_name: command_name@, specs: Seq::empty() }),
    {
        ArgumentParserBuilder::new(command_name)
    }

    /// The usage line: `Usage:`, the command, and one token per parameter.
    pub fn usage(&self) -> (r: String)
        ensures
            r@ == usage_of(self@),
    {
        let mut tokens: Vec<String> = Vec::new();
        let mut i: usize = 0;
        while i < self.specs.len()
            invariant
                i <= self.specs.len(),
                tokens@.len() == i,
                forall|j: int|
                    0 <= j < i ==> (#[trigger] tokens@[j])@ == usage_token_of(self.specs@[j]@),
            decreases self.specs.len() - i,
        {
            tokens.push(self.specs[i].usage_token());
            i = i + 1;
        }
        assert(views(tokens@) =~= usage_tokens(self@.specs));
        let mut out = String::from_str("Usage: ");
        out.append(self.command_name);
        if tokens.len() > 0 {
            out.append(" ");
            let joined = join_strings(tokens.as_slice(), " ");
            out.append(joined.as_str());
        }
        out
    }

    /// The usage line and, for a command with parameters, one line per
    /// parameter below it: two spaces and the parameter's summary.
    pub fn usage_with_details(&self) -> (r: String)
        ensures
            r@ == usage_details_of(self@),
    {
        let mut out = self.usage();
        if self.specs.len() > 0 {
            let mut details: Vec<String> = Vec::new();
            let mut i: usize = 0;
            while i < self.specs.len()
                invariant
                    i <= self.specs.len(),
                    details@.len() == i,
                    forall|j: int|
                        0 <= j < i ==> (#[trigger] details@[j])@ == detail_lines(
                            self@.specs,
                        )[j],
                decreases self.specs.len() - i,
            {
                let mut line = String::from_str("  ");
                let summary = self.specs[i].summary();
                line.append(summary.as_str());
                details.push(line);
                i = i + 1;
            }
            assert(views(details@) =~= detail_lines(self@.specs));
            out.append("\n");
            let joined = join_strings(details.as_slice(), "\n");
            out.append(joined.as_str());
        }
        out
    }

    /// A failure of this command with `message` and the detailed usage.
    pub(crate) fn error(&self, message: String) -> (r: ArgumentError)
        ensures
            r@ == (ErrorView {
                command: self@.command_name,
                message: message@,
                usage: usage_details_of(self@),
            }),
    {
        ArgumentError::new(self.command_name, message, self.usage_with_details())
    }

    /// Binds `args` to the parameters: the arguments are trimmed, the
    /// empty ones dropped, and what is left is bound as `bind` does.
    pub fn parse(&self, args: &[&str]) -> (r: Result<ParsedArguments, ArgumentError>)
        ensures
            match (r, parse_of(self@, str_views(args@))) {
                (Ok(parsed), Ok(expected)) => parsed@ == expected,
                (Err(error), Err(expected)) => error@ == expected,
                _ => false,
            },
    {
        let ghost inputs = str_views(args@);
        let mut raw: Vec<String> = Vec::new();
        let mut a: usize = 0;
        while a < args.len()
            invariant
                a <= args.len(),
                inputs == str_views(args@),
                views(raw@) == clean_tokens(inputs.take(a as int)),
            decreases args.len() - a,
        {
            let token = trim(args[a]);
            proof {
                assert(inputs.take(a + 1).drop_last() =~= inputs.take(a as int));
                assert(inputs.take(a + 1).last() == args@[a as int]@);
            }
            if !token.is_empty() {
                let ghost before = views(raw@);
                raw.push(String::from_str(token));
                assert(views(raw@) =~= before.push(token@));
            }
            a = a + 1;
        }
        assert(inputs.take(a as int) =~= inputs);
        self.bind(raw)
    }

    /// Binds `tokens`, taken as they are, to the parameters: each
    /// parameter takes its tokens in declaration order. A remainder
    /// parameter that is not last fails first; then tokens that no
    /// parameter takes; then required parameters without a value, all of
    /// them named in one message.
    pub fn bind(&self, tokens: Vec<String>) -> (r: Result<ParsedArguments, ArgumentError>)
        ensures
            match (r, bind_of(self@, views(tokens@))) {
                (Ok(parsed), Ok(expected)) => parsed@ == expected,
                (Err(error), Err(expected)) => error@ == expected,
                _ => false,
            },
    {
        let raw = tokens;
        let ghost specs = self@.specs;
        let ghost queue = views(raw@);
        let n: usize = self.specs.len();
        let m: usize = raw.len();
        let mut pos: usize = 0;
        let mut values: Vec<Vec<String>> = Vec::new();
        let mut order: Vec<&'static str> = Vec::new();
        let mut missing: Vec<String> = Vec::new();
        let mut i: usize = 0;
        while i < n
            invariant
                i <= n,
                n == self.specs.len(),
                m == raw.len(),
                specs == self@.specs,
                queue == views(raw@),
                first_misplaced_from(specs, 0) == first_misplaced_from(specs, i as int),
                forall|j: int|
                    0 <= j < i && specs[j].arity == ArgumentArity::Remainder ==> j == n - 1,
                pos == consumed_upto(specs, queue, i as int),
                values@.len() == i,
                forall|j: int|
                    0 <= j < i ==> views((#[trigger] values@[j])@) == bound_value(specs, queue, j),
                order@.len() == i,
                forall|j: int| 0 <= j < i ==> (#[trigger] order@[j])@ == specs[j].name,
                views(missing@) == missing_upto(specs, queue, i as int),
            decreases n - i,
        {
            let spec = &self.specs[i];
            assert(specs[i as int] == spec@);
            let bound: Vec<String>;
            match spec.arity {
                ArgumentArity::Single => {
                    if pos < m {
                        let mut one: Vec<String> = Vec::new();
                        one.push(raw[pos].clone());
                        assert(views(one@) =~= seq![queue[i as int]]);
                        bound = one;
                        pos = pos + 1;
                    } else {
                        bound = self.fallback_of(i, &mut missing);
                    }
                },
                ArgumentArity::Remainder => {
                    if i != n - 1 {
                        let mut message = String::from_str("Argument '");
                        message.append(spec.name);
                        message.append(
                            "' captures the remaining input and must be the final argument",
                        );
                        return Err(self.error(message));
                    }
                    if pos < m {
                        bound = tail_strings(&raw, pos);
                    } else {
                        bound = self.fallback_of(i, &mut missing);
                    }
                    pos = m;
                },
            }
            values.push(bound);
            order.push(spec.name);
            i = i + 1;
        }

        if pos < m {
            let extras = tail_strings(&raw, pos);
            let mut message = String::from_str("Unexpected argument(s) starting at '");
            let joined = join_strings(extras.as_slice(), " ");
            message.append(joined.as_str());
            message.append("'");
            return Err(self.error(message));
        }
        if missing.len() > 0 {
            let mut message = String::from_str("Missing required argument(s): ");
            let joined = join_strings(missing.as_slice(), ", ");
            message.append(joined.as_str());
            return Err(self.error(message));
        }
        assert(str_views(order@) =~= names_of(specs));
        assert(nested_views(values@) =~= bound_values(specs, queue));
        Ok(ParsedArguments::new(self.command_name, raw, order, values))
    }

    /// The default of parameter `i`, or nothing; a required parameter
    /// without a default is added to `missing`.
    fn fallback_of(&self, i: usize, missing: &mut Vec<String>) -> (r: Vec<String>)
        requires
            i < self@.specs.len(),
        ensures
            views(r@) == fallback(self@.specs[i as int]),
            views(final(missing)@) == if self@.specs[i as int].default is None
                && self@.specs[i as int].required {
                views(old(missing)@).push(self@.specs[i as int].name)
            } else {
                views(old(missing)@)
            },
    {
        let spec = &self.specs[i];
        match &spec.default {
            Some(default) => clone_strings(default.as_slice()),
            None => {
                if spec.required {
                    let ghost before = views(missing@);
                    missing.push(String::from_str(spec.name));
                    assert(views(missing@) =~= before.push(spec.name@));
                }
                let empty: Vec<String> = Vec::new();
                assert(views(empty@) =~= Seq::<Seq<char>>::empty());
                empty
            },
        }
    }
}

/// Collects the parameters of a command one by one.
#[derive(Clone, Debug)]
pub struct ArgumentParserBuilder {
    command_name: &'static str,
    specs: Vec<ArgumentDefinition>,
}

impl View for ArgumentParserBuilder {
    type V = ParserView;

    closed spec fn view(&self) -> ParserView {
        ParserView { command_name: self.command_name@, specs: definition_views(self.specs@) }
    }
}

impl ArgumentParserBuilder {
    pub(crate) fn new(command_name: &'static str) -> (r: Self)
        ensures
            r@ == (ParserView { command_name: command_name@, specs: Seq::empty() }),
    {
        let r = Self { command_name, specs: Vec::new() };
        assert(r@.specs =~= Seq::empty());
        r
    }

    /// Adds `definition` as the next parameter.
    pub fn arg(self, definition: ArgumentDefinition) -> (r: Self)
        ensures
            r@ == (ParserView {
                command_name: self@.command_name,
                specs: self@.specs.push(definition@),
            }),
    {
        let mut specs = self.specs;
        specs.push(definition);
        let r = Self { command_name: self.command_name, specs };
        assert(r@.specs =~= self@.specs.push(definition@));
        r
    }

    /// Adds a required parameter of one token.
    pub fn required(self, name: &'static str, description: &'static str) -> (r: Self)
        ensures
            r@ == (ParserView {
                command_name: self@.command_name,
                specs: self@.specs.push(
                    DefinitionView {
                        name: name@,
                        description: description@,
                        required: true,
                        arity: ArgumentArity::Single,
                        default: None,
                    },
                ),
            }),
    {
        self.arg(ArgumentDefinition::required(name, description))
    }

    /// Adds an optional parameter of one token, without a default.
    pub fn optional(self, name: &'static str, description: &'static str) -> (r: Self)
        ensures
            r@ == (ParserView {
                command_name: self@.command_name,
                specs: self@.specs.push(
                    DefinitionView {
                        name: name@,
                        description: description@,
                        required: false,
                        arity: ArgumentArity::Single,
                        default: None,
                    },
                ),
            }),
    {
        self.arg(ArgumentDefinition::optional(name, description))
    }

    /// Adds an optional parameter of one token that falls back to `default`.
    pub fn optional_with_default(
        self,
        name: &'static str,
        description: &'static str,
        default: &str,
    ) -> (r: Self)
        ensures
            r@ == (ParserView {
                command_name: self@.command_name,
                specs: self@.specs.push(
                    DefinitionView {
                        name: name@,
                        description: description@,
                        required: false,
                        arity: ArgumentArity::Single,
                        default: Some(seq![default@]),
                    },
                ),
            }),
    {
        self.arg(ArgumentDefinition::optional_with_default(name, description, default))
    }

    /// Adds a required parameter that takes every token that is left.
    pub fn required_remainder(self, name: &'static str, description: &'static str) -> (r: Self)
        ensures
            r@ == (ParserView {
                command_name: self@.command_name,
                specs: self@.specs.push(
                    DefinitionView {
                        name: name@,
                        description: description@,
                        required: true,
                        arity: ArgumentArity::Remainder,
                        default: None,
                    },
                ),
            }),
    {
        self.arg(ArgumentDefinition::required_remainder(name, description))
    }

    /// Adds an optional parameter that takes every token that is left.
    pub fn optional_remainder(self, name: &'static str, description: &'static str) -> (r: Self)
        ensures
            r@ == (ParserView {
                command_name: self@.command_name,
                specs: self@.specs.push(
                    DefinitionView {
                        name: name@,
                        description: description@,
                        required: false,
                        arity: ArgumentArity::Remainder,
                        default: None,
                    },
                ),
            }),
    {
        self.arg(ArgumentDefinition::optional_remainder(name, description))
    }

    /// Adds an optional parameter that takes every token that is left and
    /// falls back to `default` when none is.
    pub fn optional_remainder_with_default(
        self,
        name: &'static str,
        description: &'static str,
        default: &[&str],
    ) -> (r: Self)
        ensures
            r@ == (ParserView {
                command_name: self@.command_name,
                specs: self@.specs.push(
                    DefinitionView {
                        name: name@,
                        description: description@,
                        required: false,
                        arity: ArgumentArity::Remainder,
                        default: Some(str_views(default@)),
                    },
                ),
            }),
    {
        self.arg(ArgumentDefinition::optional_remainder_with_default(name, description, default))
    }

    /// The parser for what was collected.
    pub fn build(self) -> (r: ArgumentParser)
        ensures
            r@ == self@,
    {
        ArgumentParser::new(self.command_name, self.specs)
    }
}

/// Whatever a successful parse returns, every declared name has an entry
/// in it, possibly an empty one, and no other name has.
pub proof fn lemma_parsed_entries(p: ParserView, args: Seq<Seq<char>>)
    requires
        parse_of(p, args) is Ok,
    ensures
        ({
            let parsed = parse_of(p, args)->Ok_0;
            &&& parsed.order == names_of(p.specs)
            &&& parsed.order.len() == parsed.values.len()
            &&& forall|i: int|
                0 <= i < parsed.order.len() ==> lookup(
                    parsed.order,
                    parsed.values,
                    #[trigger] parsed.order[i],
                ) is Some
            &&& forall|name: Seq<char>|
                lookup(parsed.order, parsed.values, name) is Some ==> parsed.order.contains(name)
        }),
{
    let parsed = parse_of(p, args)->Ok_0;
    let order = parsed.order;
    let values = parsed.values;
    assert forall|i: int| 0 <= i < order.len() implies lookup(
        order,
        values,
        #[trigger] order[i],
    ) is Some by {
        lemma_lookup_present(order, values, i);
    }
    assert forall|name: Seq<char>| lookup(order, values, name) is Some implies order.contains(
        name,
    ) by {
        lemma_lookup_declared(order, values, name);
    }
}

/// A token without whitespace at its ends that is not empty.
pub open spec fn is_clean(token: Seq<char>) -> bool {
    token.len() > 0 && trimmed(token) == token
}

/// Arguments that are clean already are the tokens that count, unchanged.
pub proof fn lemma_clean_tokens_unchanged(args: Seq<Seq<char>>)
    requires
        forall|i: int| 0 <= i < args.len() ==> is_clean(#[trigger] args[i]),
    ensures
        clean_tokens(args) == args,
    decreases args.len(),
{
    if args.len() > 0 {
        lemma_clean_tokens_unchanged(args.drop_last());
        assert(is_clean(args[args.len() - 1]));
        assert(args.drop_last().push(args.last()) =~= args);
    } else {
        assert(args =~= Seq::empty());
    }
}

/// Where the search for a misplaced parameter ends: at the first one at
/// or after `i`, or behind the last parameter when there is none.
pub proof fn lemma_first_misplaced(specs: Seq<DefinitionView>, i: int)
    requires
        0 <= i <= specs.len(),
    ensures
        i <= first_misplaced_from(specs, i) <= specs.len(),
        first_misplaced_from(specs, i) < specs.len() ==> is_misplaced(
            specs,
            first_misplaced_from(specs, i),
        ),
        forall|j: int| i <= j < first_misplaced_from(specs, i) ==> !is_misplaced(specs, j),
    decreases specs.len() - i,
{
    if i < specs.len() && !is_misplaced(specs, i) {
        lemma_first_misplaced(specs, i + 1);
    }
}

/// A remainder parameter that is not the last one makes every parse fail,
/// whatever the arguments, with the message that names the first such
/// parameter.
pub proof fn lemma_misplaced_remainder_rejected(p: ParserView, args: Seq<Seq<char>>, i: int)
    requires
        is_misplaced(p.specs, i),
    ensures
        ({
            let k = first_misplaced_from(p.specs, 0);
            &&& 0 <= k <= i
            &&& is_misplaced(p.specs, k)
            &&& parse_of(p, args) == Err::<ParsedView, ErrorView>(
                ErrorView {
                    command: p.command_name,
                    message: misplaced_message(p.specs[k].name),
                    usage: usage_details_of(p),
                },
            )
        }),
{
    lemma_first_misplaced(p.specs, 0);
    let k = first_misplaced_from(p.specs, 0);
    if k > i {
        assert(!is_misplaced(p.specs, i));
    }
}

/// A command whose only parameter is an optional remainder with a default
/// always parses: without tokens the parameter is bound to the default,
/// unchanged, and with tokens to exactly the tokens.
pub proof fn lemma_lone_remainder_binding(p: ParserView, args: Seq<Seq<char>>)
    requires
        p.specs.len() == 1,
        p.specs[0].arity == ArgumentArity::Remainder,
        !p.specs[0].required,
        p.specs[0].default is Some,
    ensures
        ({
            let tokens = clean_tokens(args);
            let bound = if tokens.len() == 0 {
                p.specs[0].default->0
            } else {
                tokens
            };
            &&& parse_of(p, args) is Ok
            &&& parse_of(p, args)->Ok_0.values == seq![bound]
            &&& lookup(
                parse_of(p, args)->Ok_0.order,
                parse_of(p, args)->Ok_0.values,
                p.specs[0].name,
            ) == Some(bound)
        }),
{
    let tokens = clean_tokens(args);
    lemma_first_misplaced(p.specs, 0);
    assert(!is_misplaced(p.specs, 0));
    assert(first_misplaced_from(p.specs, 0) == 1) by {
        reveal_with_fuel(first_misplaced_from, 3);
    }
    assert(missing_upto(p.specs, tokens, 1) =~= Seq::<Seq<char>>::empty()) by {
        reveal_with_fuel(missing_upto, 3);
    }
    assert(tokens.len() > 0 ==> tokens.skip(0) =~= tokens);
    let bound = if tokens.len() == 0 {
        p.specs[0].default->0
    } else {
        tokens
    };
    assert(bound_values(p.specs, tokens) =~= seq![bound]);
    assert(names_of(p.specs) =~= seq![p.specs[0].name]);
}

/// Without a token, the missing parameters among the first `k` required
/// single parameters that have no default are all of them.
pub proof fn lemma_missing_all(specs: Seq<DefinitionView>, k: int)
    requires
        0 <= k <= specs.len(),
        forall|i: int|
            0 <= i < specs.len() ==> (#[trigger] specs[i]).required && specs[i].default is None,
    ensures
        missing_upto(specs, Seq::empty(), k) == names_of(specs).take(k),
    decreases k,
{
    if k > 0 {
        lemma_missing_all(specs, k - 1);
        assert(specs[k - 1].required);
        assert(names_of(specs).take(k - 1).push(specs[k - 1].name) =~= names_of(specs).take(k));
    } else {
        assert(names_of(specs).take(0) =~= Seq::<Seq<char>>::empty());
    }
}

/// Where every parameter is a required single one without a default and
/// no token is given, the parse fails with the message that names every
/// parameter, in declaration order.
pub proof fn lemma_missing_required_named(p: ParserView, args: Seq<Seq<char>>)
    requires
        p.specs.len() > 0,
        forall|i: int|
            0 <= i < p.specs.len() ==> (#[trigger] p.specs[i]).required && p.specs[i].default
                is None && p.specs[i].arity == ArgumentArity::Single,
        clean_tokens(args).len() == 0,
    ensures
        parse_of(p, args) == Err::<ParsedView, ErrorView>(
            ErrorView {
                command: p.command_name,
                message: missing_message(names_of(p.specs)),
                usage: usage_details_of(p),
            },
        ),
{
    let tokens = clean_tokens(args);
    assert(tokens =~= Seq::empty());
    lemma_first_misplaced(p.specs, 0);
    let k = first_misplaced_from(p.specs, 0);
    if k < p.specs.len() {
        assert(p.specs[k].arity == ArgumentArity::Single);
    }
    lemma_missing_all(p.specs, p.specs.len() as int);
    assert(names_of(p.specs).take(p.specs.len() as int) =~= names_of(p.specs));
}

/// Where no remainder parameter is declared, more tokens than parameters
/// make the parse fail with the message that names the surplus tokens,
/// from the first on.
pub proof fn lemma_surplus_rejected(p: ParserView, args: Seq<Seq<char>>)
    requires
        forall|i: int|
            0 <= i < p.specs.len() ==> (#[trigger] p.specs[i]).arity == ArgumentArity::Single,
        clean_tokens(args).len() > p.specs.len(),
    ensures
        parse_of(p, args) == Err::<ParsedView, ErrorView>(
            ErrorView {
                command: p.command_name,
                message: unexpected_message(clean_tokens(args).skip(p.specs.len() as int)),
                usage: usage_details_of(p),
            },
        ),
        clean_tokens(args).skip(p.specs.len() as int)[0] == clean_tokens(args)[p.specs.len()
            as int],
{
    lemma_first_misplaced(p.specs, 0);
    let k = first_misplaced_from(p.specs, 0);
    if k < p.specs.len() {
        assert(p.specs[k].arity == ArgumentArity::Single);
    }
}

} // verus!
