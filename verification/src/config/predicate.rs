//! The predicates of `#[cfg(..)]` attributes.
use cairo_lang_filesystem::cfg::CfgSet;
use vstd::prelude::*;

use crate::duplicate::optional_view;
use crate::search::lemma_filter_map_take;
use crate::semantic::ids::SyntaxStablePtrId;
use crate::text::concat3;

verus! {

/// The configuration that a program is compiled for.
#[verifier::external_type_specification]
#[verifier::external_body]
pub struct ExCfgSet(CfgSet);

/// A configuration option as mathematics sees it: its key, and its value if it has one.
pub type CfgView = (Seq<char>, Option<Seq<char>>);

/// The options of a configuration.
pub uninterp spec fn cfgs(cfg_set: CfgSet) -> Set<CfgView>;

/// A configuration option.
#[derive(Debug)]
pub struct Cfg {
    pub key: String,
    pub value: Option<String>,
}

impl View for Cfg {
    type V = CfgView;

    open spec fn view(&self) -> CfgView {
        (self.key@, optional_view(self.value))
    }
}

impl Cfg {
    /// The option that `#[cfg(name)]` asks for.
    pub fn name(name: String) -> (r: Cfg)
        ensures
            r@ == (name@, None::<Seq<char>>),
    {
        Cfg { key: name, value: None }
    }

    /// The option that `#[cfg(key: "value")]` asks for.
    pub fn kv(key: String, value: String) -> (r: Cfg)
        ensures
            r@ == (key@, Some(value@)),
    {
        Cfg { key, value: Some(value) }
    }
}

/// Calls `CfgSet::contains`: whether the option is one of the configuration. Options are equal
/// where their keys and values are.
#[verifier::external_body]
fn cfg_set_contains(cfg_set: &CfgSet, key: &String, value: &Option<String>) -> (r: bool)
    ensures
        r == cfgs(*cfg_set).contains((key@, optional_view(*value))),
{
    cfg_set.contains(&cairo_lang_filesystem::cfg::Cfg { key: key.clone(), value: value.clone() })
}

/// Represents a predicate tree used to evaluate configuration attributes to handle nested
/// predicates, such as logical `not` operations, and evaluate them based on a given set of
/// configuration flags.
#[derive(Debug)]
pub enum PredicateTree {
    Cfg(Cfg),
    Not(Box<PredicateTree>),
    And(Vec<PredicateTree>),
    Or(Vec<PredicateTree>),
}

/// A predicate as mathematics sees it.
#[verifier::ext_equal]
pub enum PredicateView {
    Cfg(CfgView),
    Not(Box<PredicateView>),
    And(Seq<PredicateView>),
    Or(Seq<PredicateView>),
}

pub open spec fn predicate_view(tree: PredicateTree) -> PredicateView
    decreases tree,
{
    match tree {
        PredicateTree::Cfg(cfg) => PredicateView::Cfg(cfg@),
        PredicateTree::Not(inner) => PredicateView::Not(Box::new(predicate_view(*inner))),
        PredicateTree::And(predicates) => PredicateView::And(
            Seq::new(
                predicates@.len(),
                |i: int|
                    if 0 <= i < predicates@.len() {
                        predicate_view(predicates@[i])
                    } else {
                        PredicateView::And(Seq::empty())
                    },
            ),
        ),
        PredicateTree::Or(predicates) => PredicateView::Or(
            Seq::new(
                predicates@.len(),
                |i: int|
                    if 0 <= i < predicates@.len() {
                        predicate_view(predicates@[i])
                    } else {
                        PredicateView::And(Seq::empty())
                    },
            ),
        ),
    }
}

impl View for PredicateTree {
    type V = PredicateView;

    open spec fn view(&self) -> PredicateView {
        predicate_view(*self)
    }
}

/// The views of a list of predicates.
pub open spec fn predicate_views(predicates: Seq<PredicateTree>) -> Seq<PredicateView> {
    Seq::new(predicates.len(), |i: int| predicates[i]@)
}

proof fn lemma_predicate_views(predicates: Vec<PredicateTree>)
    ensures
        PredicateTree::And(predicates)@ == PredicateView::And(predicate_views(predicates@)),
        PredicateTree::Or(predicates)@ == PredicateView::Or(predicate_views(predicates@)),
{
    assert(PredicateTree::And(predicates)@->And_0 =~= predicate_views(predicates@));
    assert(PredicateTree::Or(predicates)@->Or_0 =~= predicate_views(predicates@));
}

pub open spec fn predicate_at(predicates: Seq<PredicateView>, i: int) -> PredicateView {
    predicates[i]
}

/// Whether the predicate holds in a configuration with the given options.
pub open spec fn holds(predicate: PredicateView, options: Set<CfgView>) -> bool
    decreases predicate,
{
    match predicate {
        PredicateView::Cfg(cfg) => options.contains(cfg),
        PredicateView::Not(inner) => !holds(*inner, options),
        PredicateView::And(predicates) => forall|i: int|
            0 <= i < predicates.len() ==> holds(#[trigger] predicate_at(predicates, i), options),
        PredicateView::Or(predicates) => exists|i: int|
            0 <= i < predicates.len() && holds(#[trigger] predicate_at(predicates, i), options),
    }
}

/// One predicate of a list decides that not all of them hold, or that one of them does.
proof fn lemma_one_decides(predicates: Seq<PredicateView>, options: Set<CfgView>, at: int)
    requires
        0 <= at < predicates.len(),
    ensures
        !holds(predicates[at], options) ==> !holds(PredicateView::And(predicates), options),
        holds(predicates[at], options) ==> holds(PredicateView::Or(predicates), options),
{
    assert(predicate_at(predicates, at) == predicates[at]);
}

impl PredicateTree {
    /// Evaluates the predicate tree against the provided configuration set by traversing it, and
    /// determines whether the predicate is satisfied by the given `cfg_set`.
    pub fn evaluate(&self, cfg_set: &CfgSet) -> (r: bool)
        ensures
            r == holds(self@, cfgs(*cfg_set)),
        decreases *self,
    {
        match self {
            PredicateTree::Cfg(cfg) => cfg_set_contains(cfg_set, &cfg.key, &cfg.value),
            PredicateTree::Not(inner) => !inner.evaluate(cfg_set),
            PredicateTree::And(predicates) => {
                proof {
                    lemma_predicate_views(*predicates);
                }
                let mut i: usize = 0;
                while i < predicates.len()
                    invariant
                        i <= predicates@.len(),
                        *self == PredicateTree::And(*predicates),
                        self@ == PredicateView::And(predicate_views(predicates@)),
                        forall|j: int|
                            0 <= j < i ==> holds(
                                #[trigger] predicate_views(predicates@)[j],
                                cfgs(*cfg_set),
                            ),
                    decreases predicates@.len() - i,
                {
                    assert(decreases_to!(*self => self->And_0));
                    assert(decreases_to!(predicates@ => predicates@[i as int]));
                    assert(predicate_views(predicates@)[i as int] == predicates@[i as int]@);
                    if !(&predicates[i]).evaluate(cfg_set) {
                        proof {
                            lemma_one_decides(
                                predicate_views(predicates@),
                                cfgs(*cfg_set),
                                i as int,
                            );
                        }
                        return false;
                    }
                    i += 1;
                }
                true
            },
            PredicateTree::Or(predicates) => {
                proof {
                    lemma_predicate_views(*predicates);
                }
                let mut i: usize = 0;
                while i < predicates.len()
                    invariant
                        i <= predicates@.len(),
                        *self == PredicateTree::Or(*predicates),
                        self@ == PredicateView::Or(predicate_views(predicates@)),
                        forall|j: int|
                            0 <= j < i ==> !holds(
                                #[trigger] predicate_views(predicates@)[j],
                                cfgs(*cfg_set),
                            ),
                    decreases predicates@.len() - i,
                {
                    assert(decreases_to!(*self => self->Or_0));
                    assert(decreases_to!(predicates@ => predicates@[i as int]));
                    assert(predicate_views(predicates@)[i as int] == predicates@[i as int]@);
                    if (&predicates[i]).evaluate(cfg_set) {
                        proof {
                            lemma_one_decides(
                                predicate_views(predicates@),
                                cfgs(*cfg_set),
                                i as int,
                            );
                        }
                        return true;
                    }
                    i += 1;
                }
                false
            },
        }
    }
}

/// A segment of a path.
#[derive(Debug)]
pub enum PathSegment {
    /// A segment that is an identifier and nothing else.
    Simple(String),
    Other,
}

/// A call in an attribute.
#[derive(Debug)]
pub struct CallExpr {
    /// The text of the path that is called.
    pub path: String,
    pub arguments: Vec<AttributeArg>,
    pub stable_ptr: SyntaxStablePtrId,
}

/// An expression in an attribute.
#[derive(Debug)]
pub enum ArgExpr {
    Path(Vec<PathSegment>),
    FunctionCall(CallExpr),
    /// A string, with its value if it has a valid one.
    String(Option<String>),
    /// A short string, with its value if it has a valid one.
    ShortString(Option<String>),
    Other,
}

#[derive(Debug)]
pub enum AttributeArgVariant {
    /// Just `value`.
    Unnamed(ArgExpr),
    /// `name: value`.
    Named { name: String, value: ArgExpr },
    /// `:name`.
    FieldInitShorthand,
}

/// An argument of an attribute.
#[derive(Debug)]
pub struct AttributeArg {
    pub variant: AttributeArgVariant,
    pub stable_ptr: SyntaxStablePtrId,
}

/// An attribute, such as `#[name(args)]`.
#[derive(Debug)]
pub struct Attribute {
    pub name: String,
    pub args: Vec<AttributeArg>,
}

/// An error that a plugin found.
#[derive(Debug)]
pub struct PluginDiagnostic {
    pub stable_ptr: SyntaxStablePtrId,
    pub message: String,
}

#[verifier::ext_equal]
pub struct PluginDiagnosticView {
    pub stable_ptr: SyntaxStablePtrId,
    pub message: Seq<char>,
}

impl View for PluginDiagnostic {
    type V = PluginDiagnosticView;

    open spec fn view(&self) -> PluginDiagnosticView {
        PluginDiagnosticView { stable_ptr: self.stable_ptr, message: self.message@ }
    }
}

pub open spec fn plugin_views(diagnostics: Seq<PluginDiagnostic>) -> Seq<PluginDiagnosticView> {
    diagnostics.map_values(|diagnostic: PluginDiagnostic| diagnostic@)
}

/// Represents a part of a configuration predicate.
pub enum ConfigPredicatePart<'a> {
    /// A configuration item, either a key-value pair or a simple name.
    Cfg(Cfg),
    /// A function call in the predicate (`not`, `and`, `or`).
    Call(&'a CallExpr),
}

pub enum PartView {
    Cfg(CfgView),
    Call(CallExpr),
}

pub open spec fn text_or_empty(text: Option<String>) -> Seq<char> {
    match text {
        Some(text) => text@,
        None => Seq::empty(),
    }
}

/// The part of a predicate that an argument is: an identifier, a call, or a name with a string.
pub open spec fn predicate_part(variant: AttributeArgVariant) -> Option<PartView> {
    match variant {
        AttributeArgVariant::Unnamed(ArgExpr::Path(segments)) => if segments@.len() == 1 {
            match segments@[0] {
                PathSegment::Simple(identifier) => Some(PartView::Cfg((identifier@, None))),
                PathSegment::Other => None,
            }
        } else {
            None
        },
        AttributeArgVariant::Unnamed(ArgExpr::FunctionCall(call)) => Some(PartView::Call(call)),
        AttributeArgVariant::Named { name, value: ArgExpr::String(text) } => Some(
            PartView::Cfg((name@, Some(text_or_empty(text)))),
        ),
        AttributeArgVariant::Named { name, value: ArgExpr::ShortString(text) } => Some(
            PartView::Cfg((name@, Some(text_or_empty(text)))),
        ),
        _ => None,
    }
}

fn string_or_empty(text: &Option<String>) -> (r: String)
    ensures
        r@ == text_or_empty(*text),
{
    match text {
        Some(text) => text.clone(),
        None => String::new(),
    }
}

/// Extracts a configuration predicate part from an attribute argument.
pub fn extract_config_predicate_part(arg: &AttributeArg) -> (r: Option<ConfigPredicatePart<'_>>)
    ensures
        match r {
            Some(ConfigPredicatePart::Cfg(cfg)) => predicate_part(arg.variant) == Some(
                PartView::Cfg(cfg@),
            ),
            Some(ConfigPredicatePart::Call(call)) => predicate_part(arg.variant) == Some(
                PartView::Call(*call),
            ) && arg.variant == AttributeArgVariant::Unnamed(ArgExpr::FunctionCall(*call)),
            None => predicate_part(arg.variant) is None,
        },
{
    match &arg.variant {
        AttributeArgVariant::Unnamed(ArgExpr::Path(segments)) => {
            if segments.len() != 1 {
                return None;
            }
            match &segments[0] {
                PathSegment::Simple(identifier) => Some(
                    ConfigPredicatePart::Cfg(Cfg::name(identifier.clone())),
                ),
                PathSegment::Other => None,
            }
        },
        AttributeArgVariant::Unnamed(ArgExpr::FunctionCall(call)) => Some(
            ConfigPredicatePart::Call(call),
        ),
        AttributeArgVariant::Named { name, value } => {
            let value_text = match value {
                ArgExpr::String(text) => string_or_empty(text),
                ArgExpr::ShortString(text) => string_or_empty(text),
                _ => {
                    return None;
                },
            };
            Some(ConfigPredicatePart::Cfg(Cfg::kv(name.clone(), value_text)))
        },
        _ => None,
    }
}

pub open spec fn plugin_error(stable_ptr: SyntaxStablePtrId, message: Seq<char>) -> Seq<
    PluginDiagnosticView,
> {
    seq![PluginDiagnosticView { stable_ptr, message }]
}

/// The predicate that an argument of `#[cfg(..)]` is, if it is a valid one, and the errors in it.
pub open spec fn parsed_item(item: AttributeArg) -> (
    Option<PredicateView>,
    Seq<PluginDiagnosticView>,
)
    decreases item, 0nat,
{
    match item.variant {
        AttributeArgVariant::Unnamed(ArgExpr::FunctionCall(call)) => {
            let n = call.arguments@.len();
            let all = parsed_items(call.arguments@, n);
            if call.path@ == "not"@ {
                if n != 1 {
                    (
                        None,
                        plugin_error(
                            call.stable_ptr,
                            "`not` operator expects exactly one argument."@,
                        ),
                    )
                } else {
                    match parsed_item(call.arguments@[0]) {
                        (Some(inner), errors) => (
                            Some(PredicateView::Not(Box::new(inner))),
                            errors,
                        ),
                        (None, errors) => (None, errors),
                    }
                }
            } else if call.path@ == "and"@ {
                if n < 2 {
                    (
                        None,
                        plugin_error(
                            call.stable_ptr,
                            "`and` operator expects at least two arguments."@,
                        ),
                    )
                } else {
                    (Some(PredicateView::And(all.0)), all.1)
                }
            } else if call.path@ == "or"@ {
                if n < 2 {
                    (
                        None,
                        plugin_error(
                            call.stable_ptr,
                            "`or` operator expects at least two arguments."@,
                        ),
                    )
                } else {
                    (Some(PredicateView::Or(all.0)), all.1)
                }
            } else {
                (
                    None,
                    plugin_error(
                        call.stable_ptr,
                        "Unsupported operator: `"@ + call.path@ + "`."@,
                    ),
                )
            }
        },
        variant => match predicate_part(variant) {
            Some(PartView::Cfg(cfg)) => (Some(PredicateView::Cfg(cfg)), Seq::empty()),
            _ => (None, plugin_error(item.stable_ptr, "Invalid configuration argument."@)),
        },
    }
}

/// The valid ones of the first `n` arguments, and the errors in these arguments.
pub open spec fn parsed_items(items: Seq<AttributeArg>, n: nat) -> (
    Seq<PredicateView>,
    Seq<PluginDiagnosticView>,
)
    decreases items, n,
{
    if n == 0 || n > items.len() {
        (Seq::empty(), Seq::empty())
    } else {
        let before = parsed_items(items, (n - 1) as nat);
        match parsed_item(items[n - 1]) {
            (Some(predicate), errors) => (before.0.push(predicate), before.1 + errors),
            (None, errors) => (before.0, before.1 + errors),
        }
    }
}

/// Adds an error.
fn push_error(
    diagnostics: &mut Vec<PluginDiagnostic>,
    stable_ptr: SyntaxStablePtrId,
    message: String,
)
    ensures
        plugin_views(final(diagnostics)@) == plugin_views(old(diagnostics)@) + plugin_error(
            stable_ptr,
            message@,
        ),
{
    diagnostics.push(PluginDiagnostic { stable_ptr, message });
    assert(plugin_views(diagnostics@) =~= plugin_views(old(diagnostics)@) + plugin_error(
        stable_ptr,
        message@,
    ));
}

/// Parses arguments, leaving out those that are not valid.
fn parse_predicate_items(
    items: &Vec<AttributeArg>,
    diagnostics: &mut Vec<PluginDiagnostic>,
) -> (r: Vec<PredicateTree>)
    ensures
        predicate_views(r@) == parsed_items(items@, items@.len()).0,
        plugin_views(final(diagnostics)@) == plugin_views(old(diagnostics)@) + parsed_items(
            items@,
            items@.len(),
        ).1,
    decreases items@, items@.len(),
{
    let mut predicates: Vec<PredicateTree> = Vec::new();
    assert(predicate_views(predicates@) =~= Seq::empty());
    assert(plugin_views(diagnostics@) =~= plugin_views(old(diagnostics)@) + Seq::empty());
    let mut i: usize = 0;
    while i < items.len()
        invariant
            i <= items@.len(),
            predicate_views(predicates@) == parsed_items(items@, i as nat).0,
            plugin_views(diagnostics@) == plugin_views(old(diagnostics)@) + parsed_items(
                items@,
                i as nat,
            ).1,
        decreases items@.len() - i,
    {
        assert(decreases_to!(items@ => items@[i as int]));
        let ghost done = predicates@;
        proof {
            reveal_with_fuel(parsed_items, 2);
        }
        match parse_predicate_item(&items[i], diagnostics) {
            Some(predicate) => {
                predicates.push(predicate);
                assert(predicate_views(predicates@) =~= predicate_views(done).push(predicate@));
            },
            None => {},
        }
        i += 1;
        assert(plugin_views(diagnostics@) =~= plugin_views(old(diagnostics)@) + parsed_items(
            items@,
            i as nat,
        ).1);
    }
    predicates
}

/// Parse single `#[cfg(...)]` attribute argument as a predicate.
pub fn parse_predicate_item(
    item: &AttributeArg,
    diagnostics: &mut Vec<PluginDiagnostic>,
) -> (r: Option<PredicateTree>)
    ensures
        match r {
            Some(tree) => parsed_item(*item).0 == Some(tree@),
            None => parsed_item(*item).0 is None,
        },
        plugin_views(final(diagnostics)@) == plugin_views(old(diagnostics)@) + parsed_item(
            *item,
        ).1,
    decreases *item, 0nat,
{
    let ghost before = plugin_views(diagnostics@);
    match extract_config_predicate_part(item) {
        Some(ConfigPredicatePart::Cfg(cfg)) => {
            assert(plugin_views(diagnostics@) =~= before + Seq::empty());
            Some(PredicateTree::Cfg(cfg))
        },
        Some(ConfigPredicatePart::Call(call)) => {
            let args = &call.arguments;
            if call.path == "not".to_owned() {
                if args.len() != 1 {
                    push_error(
                        diagnostics,
                        call.stable_ptr,
                        "`not` operator expects exactly one argument.".to_owned(),
                    );
                    None
                } else {
                    assert(decreases_to!(args@ => args@[0]));
                    match parse_predicate_item(&args[0], diagnostics) {
                        Some(inner) => Some(PredicateTree::Not(Box::new(inner))),
                        None => None,
                    }
                }
            } else if call.path == "and".to_owned() {
                if args.len() < 2 {
                    push_error(
                        diagnostics,
                        call.stable_ptr,
                        "`and` operator expects at least two arguments.".to_owned(),
                    );
                    None
                } else {
                    let predicates = parse_predicate_items(args, diagnostics);
                    proof {
                        lemma_predicate_views(predicates);
                    }
                    Some(PredicateTree::And(predicates))
                }
            } else if call.path == "or".to_owned() {
                if args.len() < 2 {
                    push_error(
                        diagnostics,
                        call.stable_ptr,
                        "`or` operator expects at least two arguments.".to_owned(),
                    );
                    None
                } else {
                    let predicates = parse_predicate_items(args, diagnostics);
                    proof {
                        lemma_predicate_views(predicates);
                    }
                    Some(PredicateTree::Or(predicates))
                }
            } else {
                push_error(
                    diagnostics,
                    call.stable_ptr,
                    concat3("Unsupported operator: `", call.path.as_str(), "`."),
                );
                None
            }
        },
        None => {
            push_error(
                diagnostics,
                item.stable_ptr,
                "Invalid configuration argument.".to_owned(),
            );
            None
        },
    }
}

/// Parse `#[cfg(not(ghf)...)]` attribute arguments as a predicate: all the valid ones must hold.
pub fn parse_predicate(
    attr: &Attribute,
    diagnostics: &mut Vec<PluginDiagnostic>,
) -> (r: Option<PredicateTree>)
    ensures
        r matches Some(tree) && tree@ == PredicateView::And(
            parsed_items(attr.args@, attr.args@.len()).0,
        ),
        plugin_views(final(diagnostics)@) == plugin_views(old(diagnostics)@) + parsed_items(
            attr.args@,
            attr.args@.len(),
        ).1,
{
    let predicates = parse_predicate_items(&attr.args, diagnostics);
    proof {
        lemma_predicate_views(predicates);
    }
    Some(PredicateTree::And(predicates))
}

// Laws.

proof fn lemma_parsed_items(items: Seq<AttributeArg>, n: nat)
    requires
        n <= items.len(),
    ensures
        forall|i: int|
            0 <= i < n && parsed_item(#[trigger] items[i]).0 is Some ==> parsed_items(
                items,
                n,
            ).0.contains(parsed_item(items[i]).0->Some_0),
        forall|p: PredicateView| #[trigger]
            parsed_items(items, n).0.contains(p) ==> exists|i: int|
                0 <= i < n && parsed_item(#[trigger] items[i]).0 == Some(p),
    decreases n,
{
    if n > 0 {
        lemma_parsed_items(items, (n - 1) as nat);
        reveal_with_fuel(parsed_items, 2);
        let before = parsed_items(items, (n - 1) as nat);
        let all = parsed_items(items, n);
        let last = parsed_item(items[n - 1]).0;
        assert forall|p: PredicateView| before.0.contains(p) implies all.0.contains(p) by {
            let j = choose|j: int| 0 <= j < before.0.len() && before.0[j] == p;
            assert(all.0[j] == p);
        }
        if let Some(p) = last {
            assert(all.0.last() == p);
        }
        assert forall|p: PredicateView| #[trigger] all.0.contains(p) implies exists|i: int|
            0 <= i < n && parsed_item(#[trigger] items[i]).0 == Some(p) by {
            let j = choose|j: int| 0 <= j < all.0.len() && all.0[j] == p;
            if j < before.0.len() {
                assert(before.0[j] == p);
                assert(before.0.contains(p));
                let i = choose|i: int|
                    0 <= i < n - 1 && parsed_item(#[trigger] items[i]).0 == Some(p);
                assert(parsed_item(items[i]).0 == Some(p));
            } else {
                assert(parsed_item(items[n - 1]).0 == Some(p));
            }
        }
    }
}

/// A list of predicates holds as a whole where each valid argument does, and one of them does where
/// one valid argument does.
proof fn lemma_list_holds(items: Seq<AttributeArg>, options: Set<CfgView>)
    ensures
        ({
            let predicates = parsed_items(items, items.len()).0;
            &&& holds(PredicateView::And(predicates), options) <==> forall|i: int|
                0 <= i < items.len() ==> (parsed_item(#[trigger] items[i]).0 matches Some(p)
                    ==> holds(p, options))
            &&& holds(PredicateView::Or(predicates), options) <==> exists|i: int|
                0 <= i < items.len() && (parsed_item(#[trigger] items[i]).0 matches Some(p)
                    && holds(p, options))
        }),
{
    let predicates = parsed_items(items, items.len()).0;
    lemma_parsed_items(items, items.len());
    assert forall|i: int|
        0 <= i < items.len() && (parsed_item(#[trigger] items[i]).0 matches Some(p) && holds(
            p,
            options,
        )) implies holds(PredicateView::Or(predicates), options) by {
        let j = lemma_item_place(items, i);
        lemma_one_decides(predicates, options, j);
    }
    assert forall|i: int|
        0 <= i < items.len() && (parsed_item(#[trigger] items[i]).0 matches Some(p) && !holds(
            p,
            options,
        )) implies !holds(PredicateView::And(predicates), options) by {
        let j = lemma_item_place(items, i);
        lemma_one_decides(predicates, options, j);
    }
    if !holds(PredicateView::And(predicates), options) {
        let j = choose|j: int|
            0 <= j < predicates.len() && !holds(#[trigger] predicate_at(predicates, j), options);
        assert(predicates.contains(predicates[j]));
    }
    if holds(PredicateView::Or(predicates), options) {
        let j = choose|j: int|
            0 <= j < predicates.len() && holds(#[trigger] predicate_at(predicates, j), options);
        assert(predicates.contains(predicates[j]));
    }
}

/// Where the predicate of a valid argument is in the list.
proof fn lemma_item_place(items: Seq<AttributeArg>, i: int) -> (j: int)
    requires
        0 <= i < items.len(),
        parsed_item(items[i]).0 is Some,
    ensures
        0 <= j < parsed_items(items, items.len()).0.len(),
        Some(parsed_items(items, items.len()).0[j]) == parsed_item(items[i]).0,
{
    lemma_parsed_items(items, items.len());
    let predicates = parsed_items(items, items.len()).0;
    let p = parsed_item(items[i]).0->Some_0;
    assert(predicates.contains(p));
    choose|j: int| 0 <= j < predicates.len() && predicates[j] == p
}

proof fn lemma_operators_differ()
    ensures
        "and"@ != "not"@,
        "or"@ != "not"@,
        "or"@ != "and"@,
{
    reveal_strlit("or");
    reveal_strlit("and");
    reveal_strlit("not");
    assert("and"@[0] != "not"@[0]);
    assert("or"@.len() != "not"@.len());
    assert("or"@.len() != "and"@.len());
}

/// `or` holds exactly where one of its arguments does. Arguments that are not valid are left out.
pub proof fn or_holds_where_an_argument_does(
    item: AttributeArg,
    call: CallExpr,
    options: Set<CfgView>,
)
    requires
        item.variant == AttributeArgVariant::Unnamed(ArgExpr::FunctionCall(call)),
        call.path@ == "or"@,
        call.arguments@.len() >= 2,
    ensures
        parsed_item(item).0 matches Some(predicate) && (holds(predicate, options)
            <==> exists|i: int|
            0 <= i < call.arguments@.len() && (parsed_item(
                #[trigger] call.arguments@[i],
            ).0 matches Some(p) && holds(p, options))),
{
    lemma_operators_differ();
    lemma_list_holds(call.arguments@, options);
}

/// `and` holds exactly where each of its arguments does. Arguments that are not valid are left out.
pub proof fn and_holds_where_all_arguments_do(
    item: AttributeArg,
    call: CallExpr,
    options: Set<CfgView>,
)
    requires
        item.variant == AttributeArgVariant::Unnamed(ArgExpr::FunctionCall(call)),
        call.path@ == "and"@,
        call.arguments@.len() >= 2,
    ensures
        parsed_item(item).0 matches Some(predicate) && (holds(predicate, options)
            <==> forall|i: int|
            0 <= i < call.arguments@.len() ==> (parsed_item(
                #[trigger] call.arguments@[i],
            ).0 matches Some(p) ==> holds(p, options))),
{
    lemma_operators_differ();
    lemma_list_holds(call.arguments@, options);
}

/// `not` with one valid argument holds exactly where the argument does not; it is valid where its
/// argument is.
pub proof fn not_holds_where_its_argument_does_not(
    item: AttributeArg,
    call: CallExpr,
    options: Set<CfgView>,
)
    requires
        item.variant == AttributeArgVariant::Unnamed(ArgExpr::FunctionCall(call)),
        call.path@ == "not"@,
        call.arguments@.len() == 1,
    ensures
        match parsed_item(call.arguments@[0]).0 {
            Some(p) => parsed_item(item).0 matches Some(predicate) && holds(predicate, options)
                != holds(p, options),
            None => parsed_item(item).0 is None,
        },
        parsed_item(item).1 == parsed_item(call.arguments@[0]).1,
{
}

/// Calls with the wrong number of arguments, and those of other functions, are one error at the
/// call, and no predicate.
pub proof fn wrong_calls_are_errors(item: AttributeArg, call: CallExpr)
    requires
        item.variant == AttributeArgVariant::Unnamed(ArgExpr::FunctionCall(call)),
        ({
            let n = call.arguments@.len();
            &&& call.path@ == "not"@ ==> n != 1
            &&& call.path@ == "and"@ || call.path@ == "or"@ ==> n < 2
        }),
    ensures
        parsed_item(item).0 is None,
        parsed_item(item).1.len() == 1,
        parsed_item(item).1[0].stable_ptr == call.stable_ptr,
        parsed_item(item).1[0].message == (if call.path@ == "not"@ {
            "`not` operator expects exactly one argument."@
        } else if call.path@ == "and"@ || call.path@ == "or"@ {
            "`"@ + call.path@ + "` operator expects at least two arguments."@
        } else {
            "Unsupported operator: `"@ + call.path@ + "`."@
        }),
{
    lemma_operators_differ();
    reveal_strlit("`");
    reveal_strlit("` operator expects at least two arguments.");
    reveal_strlit("`and` operator expects at least two arguments.");
    reveal_strlit("`or` operator expects at least two arguments.");
    reveal_strlit("and");
    reveal_strlit("or");
    assert("`and` operator expects at least two arguments."@ =~= "`"@ + "and"@
        + "` operator expects at least two arguments."@);
    assert("`or` operator expects at least two arguments."@ =~= "`"@ + "or"@
        + "` operator expects at least two arguments."@);
}

/// The errors of `and` and `or` are those of their arguments, in their order.
pub proof fn errors_of_arguments_are_kept(item: AttributeArg, call: CallExpr)
    requires
        item.variant == AttributeArgVariant::Unnamed(ArgExpr::FunctionCall(call)),
        call.path@ == "and"@ || call.path@ == "or"@,
        call.arguments@.len() >= 2,
    ensures
        parsed_item(item).1 == call.arguments@.flat_map(|arg: AttributeArg| parsed_item(arg).1),
{
    lemma_operators_differ();
    lemma_items_in_order(call.arguments@, call.arguments@.len());
    assert(call.arguments@.take(call.arguments@.len() as int) =~= call.arguments@);
}

/// A name holds where the configuration has an option of that name without a value, and a name with
/// a string where it has the option with that value. Neither is an error.
pub proof fn options_hold_where_they_are_set(
    item: AttributeArg,
    name: String,
    value: String,
    segments: Vec<PathSegment>,
    options: Set<CfgView>,
)
    ensures
        item.variant == AttributeArgVariant::Unnamed(ArgExpr::Path(segments)) && segments@.len()
            == 1 && segments@[0] == PathSegment::Simple(name) ==> {
            &&& parsed_item(item).0 matches Some(p) && (holds(p, options) <==> options.contains(
                (name@, None),
            ))
            &&& parsed_item(item).1.len() == 0
        },
        item.variant == (AttributeArgVariant::Named { name, value: ArgExpr::String(Some(value)) })
            || item.variant == (AttributeArgVariant::Named {
            name,
            value: ArgExpr::ShortString(Some(value)),
        }) ==> {
            &&& parsed_item(item).0 matches Some(p) && (holds(p, options) <==> options.contains(
                (name@, Some(value@)),
            ))
            &&& parsed_item(item).1.len() == 0
        },
{
}

/// What is neither a name, a name with a string, nor a call is one error at the argument.
pub proof fn other_arguments_are_errors(item: AttributeArg)
    requires
        match item.variant {
            AttributeArgVariant::Unnamed(ArgExpr::Path(segments)) => !(segments@.len() == 1
                && segments@[0] is Simple),
            AttributeArgVariant::Unnamed(ArgExpr::FunctionCall(_)) => false,
            AttributeArgVariant::Named { value: ArgExpr::String(_), .. } => false,
            AttributeArgVariant::Named { value: ArgExpr::ShortString(_), .. } => false,
            _ => true,
        },
    ensures
        parsed_item(item).0 is None,
        parsed_item(item).1.len() == 1,
        parsed_item(item).1[0].stable_ptr == item.stable_ptr,
        parsed_item(item).1[0].message == "Invalid configuration argument."@,
{
}

/// A string without a valid value stands for the empty one.
pub proof fn invalid_strings_are_empty(item: AttributeArg, name: String, options: Set<CfgView>)
    requires
        item.variant == (AttributeArgVariant::Named { name, value: ArgExpr::String(None) })
            || item.variant == (AttributeArgVariant::Named {
            name,
            value: ArgExpr::ShortString(None),
        }),
    ensures
        parsed_item(item).0 matches Some(p) && (holds(p, options) <==> options.contains(
            (name@, Some(Seq::empty())),
        )),
        parsed_item(item).1.len() == 0,
{
}

/// An attribute holds exactly where each of its valid arguments does.
pub proof fn attributes_hold_where_all_arguments_do(attr: Attribute, options: Set<CfgView>)
    ensures
        holds(PredicateView::And(parsed_items(attr.args@, attr.args@.len()).0), options)
            <==> forall|i: int|
            0 <= i < attr.args@.len() ==> (parsed_item(#[trigger] attr.args@[i]).0 matches Some(p)
                ==> holds(p, options)),
{
    lemma_list_holds(attr.args@, options);
}

/// An attribute is made of the predicates of its valid arguments, and has the errors of all of
/// them, in their order.
pub proof fn attributes_are_made_of_their_arguments(attr: Attribute)
    ensures
        parsed_items(attr.args@, attr.args@.len()).0 == attr.args@.filter_map(
            |arg: AttributeArg| parsed_item(arg).0,
        ),
        parsed_items(attr.args@, attr.args@.len()).1 == attr.args@.flat_map(
            |arg: AttributeArg| parsed_item(arg).1,
        ),
{
    lemma_items_in_order(attr.args@, attr.args@.len());
    assert(attr.args@.take(attr.args@.len() as int) =~= attr.args@);
}

proof fn lemma_items_in_order(items: Seq<AttributeArg>, n: nat)
    requires
        n <= items.len(),
    ensures
        parsed_items(items, n).0 == items.take(n as int).filter_map(
            |arg: AttributeArg| parsed_item(arg).0,
        ),
        parsed_items(items, n).1 == items.take(n as int).flat_map(
            |arg: AttributeArg| parsed_item(arg).1,
        ),
    decreases n,
{
    let predicates = |arg: AttributeArg| parsed_item(arg).0;
    let errors = |arg: AttributeArg| parsed_item(arg).1;
    if n > 0 {
        lemma_items_in_order(items, (n - 1) as nat);
        reveal_with_fuel(parsed_items, 2);
        lemma_filter_map_take(items, predicates, n - 1);
        items.lemma_flat_map_take_append(errors, n - 1);
    } else {
        assert(items.take(0).map_values(errors) =~= Seq::empty());
    }
}

/// The opposite of `and` is `or` of the opposites.
pub proof fn not_of_all_is_one_not(predicates: Seq<PredicateView>, options: Set<CfgView>)
    ensures
        holds(PredicateView::Not(Box::new(PredicateView::And(predicates))), options) == holds(
            PredicateView::Or(
                Seq::new(predicates.len(), |i: int| PredicateView::Not(Box::new(predicates[i]))),
            ),
            options,
        ),
{
    reveal_with_fuel(holds, 3);
    let opposites = Seq::new(
        predicates.len(),
        |i: int| PredicateView::Not(Box::new(predicates[i])),
    );
    assert forall|i: int| 0 <= i < predicates.len() implies holds(
        #[trigger] predicate_at(opposites, i),
        options,
    ) != holds(predicate_at(predicates, i), options) by {}
    if !holds(PredicateView::And(predicates), options) {
        let i = choose|i: int|
            0 <= i < predicates.len() && !holds(#[trigger] predicate_at(predicates, i), options);
        assert(holds(predicate_at(opposites, i), options));
    }
}

/// A predicate evaluates what it says: an option where it is set, `not` where its part does not
/// hold, `and` where all of its parts do, and `or` where one of them does.
pub proof fn predicates_hold_by_their_parts(tree: PredicateTree, options: Set<CfgView>)
    ensures
        holds(tree@, options) <==> match tree {
            PredicateTree::Cfg(cfg) => options.contains(
                (
                    cfg.key@,
                    match cfg.value {
                        Some(value) => Some(value@),
                        None => None,
                    },
                ),
            ),
            PredicateTree::Not(inner) => !holds(inner@, options),
            PredicateTree::And(parts) => forall|i: int|
                0 <= i < parts@.len() ==> holds((#[trigger] parts@[i])@, options),
            PredicateTree::Or(parts) => exists|i: int|
                0 <= i < parts@.len() && holds((#[trigger] parts@[i])@, options),
        },
{
    reveal_with_fuel(holds, 2);
    match tree {
        PredicateTree::And(parts) => {
            lemma_predicate_views(parts);
            let views = predicate_views(parts@);
            assert forall|i: int| 0 <= i < parts@.len() implies #[trigger] predicate_at(views, i)
                == parts@[i]@ by {}
            if forall|i: int| 0 <= i < parts@.len() ==> holds((#[trigger] parts@[i])@, options) {
                assert forall|i: int| 0 <= i < views.len() implies holds(
                    #[trigger] predicate_at(views, i),
                    options,
                ) by {
                    assert(holds(parts@[i]@, options));
                }
            }
            if holds(tree@, options) {
                assert forall|i: int| 0 <= i < parts@.len() implies holds(
                    (#[trigger] parts@[i])@,
                    options,
                ) by {
                    assert(holds(predicate_at(views, i), options));
                }
            }
        },
        PredicateTree::Or(parts) => {
            lemma_predicate_views(parts);
            let views = predicate_views(parts@);
            if exists|i: int| 0 <= i < parts@.len() && holds((#[trigger] parts@[i])@, options) {
                let i = choose|i: int|
                    0 <= i < parts@.len() && holds((#[trigger] parts@[i])@, options);
                assert(holds(predicate_at(views, i), options));
            }
            if holds(tree@, options) {
                let i = choose|i: int|
                    0 <= i < views.len() && holds(#[trigger] predicate_at(views, i), options);
                assert(holds(parts@[i]@, options));
            }
        },
        _ => {},
    }
}

} // verus!
