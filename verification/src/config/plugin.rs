//! The plugin that drops the items whose `#[cfg(..)]` attributes do not hold.
use cairo_lang_filesystem::cfg::CfgSet;
use vstd::prelude::*;

use crate::config::predicate::{
    attributes_hold_where_all_arguments_do, cfgs, holds, parse_predicate, parsed_item, parsed_items,
    plugin_views, Attribute, CfgView, PluginDiagnostic, PluginDiagnosticView, PredicateView,
};
use crate::search::lemma_filter_take;

verus! {

/// The name of the attribute.
pub const CFG_ATTR: &'static str = "cfg";

/// A node of the syntax tree.
#[derive(Clone, Copy, Debug, PartialEq, Eq, Structural)]
pub struct NodeId(pub u64);

/// An item of the body of a trait or an impl.
#[derive(Debug)]
pub struct BodyItem {
    pub attributes: Vec<Attribute>,
    pub node: NodeId,
}

/// The body of a trait or an impl.
#[derive(Debug)]
pub struct Body {
    pub lbrace: NodeId,
    pub items: Vec<BodyItem>,
    pub rbrace: NodeId,
}

#[derive(Debug)]
pub struct TraitItem {
    pub attributes: NodeId,
    pub trait_kw: NodeId,
    pub name: NodeId,
    pub generic_params: NodeId,
    pub body: Option<Body>,
}

#[derive(Debug)]
pub struct ImplItem {
    pub attributes: NodeId,
    pub impl_kw: NodeId,
    pub name: NodeId,
    pub generic_params: NodeId,
    pub of_kw: NodeId,
    pub trait_path: NodeId,
    pub body: Option<Body>,
}

#[derive(Debug)]
pub enum ModuleItemKind {
    Trait(TraitItem),
    Impl(ImplItem),
    Other,
}

/// An item of a module.
#[derive(Debug)]
pub struct ModuleItem {
    pub attributes: Vec<Attribute>,
    pub kind: ModuleItemKind,
}

/// Something that can have attributes.
pub trait QueryAttrs {
    spec fn spec_attributes(&self) -> Seq<Attribute>;

    /// The attributes, in their order.
    fn attributes(&self) -> (r: &Vec<Attribute>)
        ensures
            r@ == self.spec_attributes(),
    ;
}

impl QueryAttrs for BodyItem {
    open spec fn spec_attributes(&self) -> Seq<Attribute> {
        self.attributes@
    }

    fn attributes(&self) -> (r: &Vec<Attribute>) {
        &self.attributes
    }
}

impl QueryAttrs for ModuleItem {
    open spec fn spec_attributes(&self) -> Seq<Attribute> {
        self.attributes@
    }

    fn attributes(&self) -> (r: &Vec<Attribute>) {
        &self.attributes
    }
}

/// Whether the attribute is a `#[cfg(..)]` whose predicate does not hold.
pub open spec fn attribute_fails(attr: Attribute, options: Set<CfgView>) -> bool {
    attr.name@ == CFG_ATTR@ && !holds(
        PredicateView::And(parsed_items(attr.args@, attr.args@.len()).0),
        options,
    )
}

/// The errors of the attribute.
pub open spec fn attribute_errors(attr: Attribute) -> Seq<PluginDiagnosticView> {
    if attr.name@ == CFG_ATTR@ {
        parsed_items(attr.args@, attr.args@.len()).1
    } else {
        Seq::empty()
    }
}

/// Whether one of the first `n` attributes fails, and the errors of the attributes up to the first
/// that does.
pub open spec fn drop_outcome(attrs: Seq<Attribute>, options: Set<CfgView>, n: nat) -> (
    bool,
    Seq<PluginDiagnosticView>,
)
    decreases n,
{
    if n == 0 {
        (false, Seq::empty())
    } else {
        let before = drop_outcome(attrs, options, (n - 1) as nat);
        if before.0 {
            before
        } else {
            (
                attribute_fails(attrs[n - 1], options),
                before.1 + attribute_errors(attrs[n - 1]),
            )
        }
    }
}

/// Whether an item with these attributes is dropped.
pub open spec fn is_dropped(attrs: Seq<Attribute>, options: Set<CfgView>) -> bool {
    drop_outcome(attrs, options, attrs.len()).0
}

/// The errors that are found while it is decided whether an item is dropped.
pub open spec fn drop_errors(attrs: Seq<Attribute>, options: Set<CfgView>) -> Seq<
    PluginDiagnosticView,
> {
    drop_outcome(attrs, options, attrs.len()).1
}

/// What comes after an attribute that fails is not looked at.
proof fn lemma_drop_stops(attrs: Seq<Attribute>, options: Set<CfgView>, n: nat, m: nat)
    requires
        n <= m,
        drop_outcome(attrs, options, n).0,
    ensures
        drop_outcome(attrs, options, m) == drop_outcome(attrs, options, n),
    decreases m - n,
{
    if n < m {
        lemma_drop_stops(attrs, options, n, (m - 1) as nat);
    }
}

/// Check if the given item should be dropped from the AST.
pub fn should_drop<Item: QueryAttrs>(
    cfg_set: &CfgSet,
    item: &Item,
    diagnostics: &mut Vec<PluginDiagnostic>,
) -> (r: bool)
    ensures
        r == is_dropped(item.spec_attributes(), cfgs(*cfg_set)),
        plugin_views(final(diagnostics)@) == plugin_views(old(diagnostics)@) + drop_errors(
            item.spec_attributes(),
            cfgs(*cfg_set),
        ),
{
    let attrs = item.attributes();
    let ghost options = cfgs(*cfg_set);
    let ghost before = plugin_views(diagnostics@);
    let mut i: usize = 0;
    assert(plugin_views(diagnostics@) =~= before + Seq::empty());
    while i < attrs.len()
        invariant
            i <= attrs@.len(),
            attrs@ == item.spec_attributes(),
            options == cfgs(*cfg_set),
            before == plugin_views(old(diagnostics)@),
            !drop_outcome(attrs@, options, i as nat).0,
            plugin_views(diagnostics@) == before + drop_outcome(attrs@, options, i as nat).1,
        decreases attrs@.len() - i,
    {
        let attr = &attrs[i];
        let mut fails = false;
        if attr.name == CFG_ATTR.to_owned() {
            fails =
            match parse_predicate(attr, diagnostics) {
                Some(predicate_tree) => !predicate_tree.evaluate(cfg_set),
                None => false,
            };
        }
        i += 1;
        assert(plugin_views(diagnostics@) =~= before + drop_outcome(attrs@, options, i as nat).1);
        if fails {
            proof {
                lemma_drop_stops(attrs@, options, i as nat, attrs@.len());
            }
            return true;
        }
    }
    false
}

/// Of the first `n` items, those that are not dropped.
pub open spec fn kept_items(items: Seq<BodyItem>, options: Set<CfgView>, n: nat) -> Seq<BodyItem>
    decreases n,
{
    if n == 0 {
        Seq::empty()
    } else {
        let before = kept_items(items, options, (n - 1) as nat);
        if is_dropped(items[n - 1].attributes@, options) {
            before
        } else {
            before.push(items[n - 1])
        }
    }
}

/// The errors of the first `n` items.
pub open spec fn items_errors(items: Seq<BodyItem>, options: Set<CfgView>, n: nat) -> Seq<
    PluginDiagnosticView,
>
    decreases n,
{
    if n == 0 {
        Seq::empty()
    } else {
        items_errors(items, options, (n - 1) as nat) + drop_errors(
            items[n - 1].attributes@,
            options,
        )
    }
}

pub open spec fn item_nodes(items: Seq<BodyItem>) -> Seq<NodeId> {
    items.map_values(|item: BodyItem| item.node)
}

/// The nodes of the items that are kept; `None` where all of them are.
pub open spec fn kept_nodes(items: Seq<BodyItem>, options: Set<CfgView>) -> Option<Seq<NodeId>> {
    if exists|i: int|
        0 <= i < items.len() && is_dropped((#[trigger] items[i]).attributes@, options) {
        Some(item_nodes(kept_items(items, options, items.len())))
    } else {
        None
    }
}

/// Gets the list of items that should be kept in the AST.
/// Returns `None` if all items should be kept.
pub fn get_kept_items_nodes(
    cfg_set: &CfgSet,
    all_items: &Vec<BodyItem>,
    diagnostics: &mut Vec<PluginDiagnostic>,
) -> (r: Option<Vec<NodeId>>)
    ensures
        match r {
            Some(nodes) => kept_nodes(all_items@, cfgs(*cfg_set)) == Some(nodes@),
            None => kept_nodes(all_items@, cfgs(*cfg_set)) is None,
        },
        plugin_views(final(diagnostics)@) == plugin_views(old(diagnostics)@) + items_errors(
            all_items@,
            cfgs(*cfg_set),
            all_items@.len(),
        ),
{
    let ghost options = cfgs(*cfg_set);
    let ghost before = plugin_views(diagnostics@);
    let mut any_dropped = false;
    let mut kept_items_nodes: Vec<NodeId> = Vec::new();
    let mut i: usize = 0;
    assert(plugin_views(diagnostics@) =~= before + Seq::empty());
    assert(kept_items_nodes@ =~= item_nodes(Seq::empty()));
    while i < all_items.len()
        invariant
            i <= all_items@.len(),
            options == cfgs(*cfg_set),
            before == plugin_views(old(diagnostics)@),
            any_dropped == exists|j: int|
                0 <= j < i && is_dropped((#[trigger] all_items@[j]).attributes@, options),
            kept_items_nodes@ == item_nodes(kept_items(all_items@, options, i as nat)),
            plugin_views(diagnostics@) == before + items_errors(all_items@, options, i as nat),
        decreases all_items@.len() - i,
    {
        let item = &all_items[i];
        let ghost nodes = kept_items_nodes@;
        if should_drop(cfg_set, item, diagnostics) {
            any_dropped = true;
            assert(is_dropped(all_items@[i as int].attributes@, options));
        } else {
            kept_items_nodes.push(item.node);
            assert(kept_items_nodes@ =~= item_nodes(
                kept_items(all_items@, options, (i + 1) as nat),
            ));
        }
        i += 1;
        assert(plugin_views(diagnostics@) =~= before + items_errors(
            all_items@,
            options,
            i as nat,
        ));
    }
    if any_dropped {
        Some(kept_items_nodes)
    } else {
        None
    }
}

/// Extension trait for bodies filtering out items that are not included in the cfg.
pub trait HasItemsInCfgEx {
    spec fn spec_items(&self) -> Seq<BodyItem>;

    /// The items that are included in the cfg, in their order.
    fn iter_items_in_cfg(&self, cfg_set: &CfgSet) -> (r: Vec<&BodyItem>)
        ensures
            dereferenced(r@) == kept_items(
                self.spec_items(),
                cfgs(*cfg_set),
                self.spec_items().len(),
            ),
    ;
}

pub open spec fn dereferenced(items: Seq<&BodyItem>) -> Seq<BodyItem> {
    items.map_values(|item: &BodyItem| *item)
}

impl HasItemsInCfgEx for Body {
    open spec fn spec_items(&self) -> Seq<BodyItem> {
        self.items@
    }

    fn iter_items_in_cfg(&self, cfg_set: &CfgSet) -> (r: Vec<&BodyItem>) {
        let ghost options = cfgs(*cfg_set);
        let mut kept: Vec<&BodyItem> = Vec::new();
        let mut i: usize = 0;
        assert(dereferenced(kept@) =~= Seq::empty());
        while i < self.items.len()
            invariant
                i <= self.items@.len(),
                options == cfgs(*cfg_set),
                dereferenced(kept@) == kept_items(self.items@, options, i as nat),
            decreases self.items@.len() - i,
        {
            let mut ignored: Vec<PluginDiagnostic> = Vec::new();
            let ghost done = kept@;
            if !should_drop(cfg_set, &self.items[i], &mut ignored) {
                kept.push(&self.items[i]);
                assert(dereferenced(kept@) =~= dereferenced(done).push(self.items@[i as int]));
            }
            i += 1;
        }
        kept
    }
}

/// The nodes that an item is rewritten to, where elements of it are dropped.
pub open spec fn rewritten_nodes(kind: ModuleItemKind, options: Set<CfgView>) -> Option<
    Seq<NodeId>,
> {
    match kind {
        ModuleItemKind::Trait(item) => match item.body {
            Some(body) => match kept_nodes(body.items@, options) {
                Some(items) => Some(
                    seq![
                        item.attributes,
                        item.trait_kw,
                        item.name,
                        item.generic_params,
                        body.lbrace,
                    ] + items + seq![body.rbrace],
                ),
                None => None,
            },
            None => None,
        },
        ModuleItemKind::Impl(item) => match item.body {
            Some(body) => match kept_nodes(body.items@, options) {
                Some(items) => Some(
                    seq![
                        item.attributes,
                        item.impl_kw,
                        item.name,
                        item.generic_params,
                        item.of_kw,
                        item.trait_path,
                        body.lbrace,
                    ] + items + seq![body.rbrace],
                ),
                None => None,
            },
            None => None,
        },
        ModuleItemKind::Other => None,
    }
}

/// The errors of the elements of an item.
pub open spec fn element_errors(kind: ModuleItemKind, options: Set<CfgView>) -> Seq<
    PluginDiagnosticView,
> {
    match kind {
        ModuleItemKind::Trait(TraitItem { body: Some(body), .. }) => items_errors(
            body.items@,
            options,
            body.items@.len(),
        ),
        ModuleItemKind::Impl(ImplItem { body: Some(body), .. }) => items_errors(
            body.items@,
            options,
            body.items@.len(),
        ),
        _ => Seq::empty(),
    }
}

/// The nodes of `start`, then those of the items, then `end`.
fn enclosed(start: Vec<NodeId>, items: Vec<NodeId>, end: NodeId) -> (r: Vec<NodeId>)
    ensures
        r@ == start@ + items@ + seq![end],
{
    let mut nodes = start;
    let mut added = items;
    nodes.append(&mut added);
    nodes.push(end);
    assert(nodes@ =~= start@ + items@ + seq![end]);
    nodes
}

/// Handles an item that is not dropped from the AST completely due to not matching the config.
/// In case it includes dropped elements and needs to be rewritten, it returns the nodes that are
/// left of it. Otherwise returns `None`, and it won't be rewritten or dropped.
pub fn handle_undropped_item(
    cfg_set: &CfgSet,
    item_ast: &ModuleItem,
    diagnostics: &mut Vec<PluginDiagnostic>,
) -> (r: Option<Vec<NodeId>>)
    ensures
        match r {
            Some(nodes) => rewritten_nodes(item_ast.kind, cfgs(*cfg_set)) == Some(nodes@),
            None => rewritten_nodes(item_ast.kind, cfgs(*cfg_set)) is None,
        },
        plugin_views(final(diagnostics)@) == plugin_views(old(diagnostics)@) + element_errors(
            item_ast.kind,
            cfgs(*cfg_set),
        ),
{
    let ghost before = plugin_views(diagnostics@);
    assert(before =~= before + Seq::empty());
    match &item_ast.kind {
        ModuleItemKind::Trait(item) => match &item.body {
            Some(body) => match get_kept_items_nodes(cfg_set, &body.items, diagnostics) {
                Some(items) => {
                    let start: Vec<NodeId> = vec![
                        item.attributes,
                        item.trait_kw,
                        item.name,
                        item.generic_params,
                        body.lbrace,
                    ];
                    assert(start@ =~= seq![
                        item.attributes,
                        item.trait_kw,
                        item.name,
                        item.generic_params,
                        body.lbrace,
                    ]);
                    Some(enclosed(start, items, body.rbrace))
                },
                None => None,
            },
            None => None,
        },
        ModuleItemKind::Impl(item) => match &item.body {
            Some(body) => match get_kept_items_nodes(cfg_set, &body.items, diagnostics) {
                Some(items) => {
                    let start: Vec<NodeId> = vec![
                        item.attributes,
                        item.impl_kw,
                        item.name,
                        item.generic_params,
                        item.of_kw,
                        item.trait_path,
                        body.lbrace,
                    ];
                    assert(start@ =~= seq![
                        item.attributes,
                        item.impl_kw,
                        item.name,
                        item.generic_params,
                        item.of_kw,
                        item.trait_path,
                        body.lbrace,
                    ]);
                    Some(enclosed(start, items, body.rbrace))
                },
                None => None,
            },
            None => None,
        },
        ModuleItemKind::Other => None,
    }
}

/// A file that a plugin generates.
#[derive(Debug)]
pub struct PluginGeneratedFile {
    pub name: String,
    /// The nodes that the content of the file is made of.
    pub nodes: Vec<NodeId>,
}

/// What a plugin makes of an item.
#[derive(Debug)]
pub struct PluginResult {
    pub code: Option<PluginGeneratedFile>,
    pub diagnostics: Vec<PluginDiagnostic>,
    pub remove_original_item: bool,
}

/// Plugin that enables ignoring modules not involved in the current config.
///
/// Mostly useful for marking test modules to prevent usage of their functionality out of tests,
/// and reduce compilation time when the tests data isn't required.
#[derive(Debug)]
#[non_exhaustive]
pub struct ConfigPlugin {}

impl Default for ConfigPlugin {
    fn default() -> (r: Self)
        ensures
            r == (ConfigPlugin {  }),
    {
        ConfigPlugin {  }
    }
}

impl ConfigPlugin {
    /// Drops the item, or the elements of it, whose attributes do not hold.
    pub fn generate_code(&self, item_ast: &ModuleItem, cfg_set: &CfgSet) -> (r: PluginResult)
        ensures
            ({
                let options = cfgs(*cfg_set);
                let attrs = item_ast.attributes@;
                let nodes = rewritten_nodes(item_ast.kind, options);
                if is_dropped(attrs, options) {
                    &&& r.code is None
                    &&& r.remove_original_item
                    &&& plugin_views(r.diagnostics@) == drop_errors(attrs, options)
                } else {
                    &&& match r.code {
                        Some(file) => file.name@ == "config"@ && nodes == Some(file.nodes@),
                        None => nodes is None,
                    }
                    &&& r.remove_original_item == (nodes is Some)
                    &&& plugin_views(r.diagnostics@) == drop_errors(attrs, options)
                        + element_errors(item_ast.kind, options)
                }
            }),
    {
        let mut diagnostics: Vec<PluginDiagnostic> = Vec::new();
        assert(plugin_views(diagnostics@) =~= Seq::empty());
        let ghost errors = drop_errors(item_ast.attributes@, cfgs(*cfg_set));
        assert(Seq::<PluginDiagnosticView>::empty() + errors =~= errors);
        if should_drop(cfg_set, item_ast, &mut diagnostics) {
            PluginResult { code: None, diagnostics, remove_original_item: true }
        } else {
            match handle_undropped_item(cfg_set, item_ast, &mut diagnostics) {
                Some(nodes) => PluginResult {
                    code: Some(PluginGeneratedFile { name: "config".to_owned(), nodes }),
                    diagnostics,
                    remove_original_item: true,
                },
                None => PluginResult { code: None, diagnostics, remove_original_item: false },
            }
        }
    }

    /// The attributes that the plugin understands.
    pub fn declared_attributes(&self) -> (r: Vec<String>)
        ensures
            r@.len() == 1,
            r@[0]@ == CFG_ATTR@,
    {
        vec![CFG_ATTR.to_owned()]
    }
}

/// An item is dropped exactly where one of its `#[cfg(..)]` attributes does not hold.
pub proof fn dropped_where_an_attribute_fails(attrs: Seq<Attribute>, options: Set<CfgView>)
    ensures
        is_dropped(attrs, options) <==> exists|i: int|
            0 <= i < attrs.len() && attribute_fails(#[trigger] attrs[i], options),
{
    lemma_drop_outcome(attrs, options, attrs.len());
}

proof fn lemma_drop_outcome(attrs: Seq<Attribute>, options: Set<CfgView>, n: nat)
    requires
        n <= attrs.len(),
    ensures
        drop_outcome(attrs, options, n).0 <==> exists|i: int|
            0 <= i < n && attribute_fails(#[trigger] attrs[i], options),
    decreases n,
{
    if n > 0 {
        lemma_drop_outcome(attrs, options, (n - 1) as nat);
        if attribute_fails(attrs[n - 1], options) {
            assert(attribute_fails(attrs[n - 1], options));
        }
    }
}

/// An item without a `#[cfg(..)]` attribute is kept, without errors.
pub proof fn items_without_cfg_are_kept(attrs: Seq<Attribute>, options: Set<CfgView>)
    requires
        forall|i: int| 0 <= i < attrs.len() ==> (#[trigger] attrs[i]).name@ != CFG_ATTR@,
    ensures
        !is_dropped(attrs, options),
        drop_errors(attrs, options) == Seq::<PluginDiagnosticView>::empty(),
{
    lemma_without_cfg(attrs, options, attrs.len());
}

proof fn lemma_without_cfg(attrs: Seq<Attribute>, options: Set<CfgView>, n: nat)
    requires
        n <= attrs.len(),
        forall|i: int| 0 <= i < attrs.len() ==> (#[trigger] attrs[i]).name@ != CFG_ATTR@,
    ensures
        drop_outcome(attrs, options, n) == (false, Seq::<PluginDiagnosticView>::empty()),
    decreases n,
{
    if n > 0 {
        lemma_without_cfg(attrs, options, (n - 1) as nat);
        assert(attrs[n - 1].name@ != CFG_ATTR@);
        assert(drop_outcome(attrs, options, n).1 =~= Seq::empty());
    }
}

/// Arguments that are not valid are left out of the predicate: an attribute without valid ones
/// holds.
pub proof fn invalid_arguments_drop_nothing(attr: Attribute, options: Set<CfgView>)
    requires
        parsed_items(attr.args@, attr.args@.len()).0.len() == 0,
    ensures
        !attribute_fails(attr, options),
{
}

/// The items that are kept are kept when they are looked at again.
pub proof fn kept_items_stay(items: Seq<BodyItem>, options: Set<CfgView>)
    ensures
        kept_nodes(kept_items(items, options, items.len()), options) is None,
{
    lemma_kept_items(items, options, items.len());
}

proof fn lemma_kept_items(items: Seq<BodyItem>, options: Set<CfgView>, n: nat)
    requires
        n <= items.len(),
    ensures
        forall|i: int|
            0 <= i < kept_items(items, options, n).len() ==> !is_dropped(
                (#[trigger] kept_items(items, options, n)[i]).attributes@,
                options,
            ),
    decreases n,
{
    if n > 0 {
        lemma_kept_items(items, options, (n - 1) as nat);
        let before = kept_items(items, options, (n - 1) as nat);
        let kept = kept_items(items, options, n);
        assert forall|i: int| 0 <= i < kept.len() implies !is_dropped(
            (#[trigger] kept[i]).attributes@,
            options,
        ) by {
            if i < before.len() {
                assert(kept[i] == before[i]);
            }
        }
    }
}

/// Where no item is dropped, all items are kept.
pub proof fn nothing_dropped_keeps_all(items: Seq<BodyItem>, options: Set<CfgView>)
    requires
        kept_nodes(items, options) is None,
    ensures
        kept_items(items, options, items.len()) == items,
{
    lemma_all_kept(items, options, items.len());
    assert(items.take(items.len() as int) =~= items);
}

proof fn lemma_all_kept(items: Seq<BodyItem>, options: Set<CfgView>, n: nat)
    requires
        n <= items.len(),
        forall|i: int|
            0 <= i < items.len() ==> !is_dropped((#[trigger] items[i]).attributes@, options),
    ensures
        kept_items(items, options, n) == items.take(n as int),
    decreases n,
{
    if n > 0 {
        lemma_all_kept(items, options, (n - 1) as nat);
        assert(!is_dropped(items[n - 1].attributes@, options));
        assert(items.take(n as int) =~= items.take(n - 1).push(items[n - 1]));
    } else {
        assert(items.take(0) =~= Seq::empty());
    }
}

/// The items that are kept are those with no `#[cfg(..)]` attribute that fails, in their order.
pub proof fn items_are_kept_in_their_order(items: Seq<BodyItem>, options: Set<CfgView>)
    ensures
        kept_items(items, options, items.len()) == items.filter(
            |item: BodyItem|
                forall|i: int|
                    0 <= i < item.attributes@.len() ==> !attribute_fails(
                        #[trigger] item.attributes@[i],
                        options,
                    ),
        ),
{
    lemma_kept_in_order(items, options, items.len());
    assert(items.take(items.len() as int) =~= items);
}

proof fn lemma_kept_in_order(items: Seq<BodyItem>, options: Set<CfgView>, n: nat)
    requires
        n <= items.len(),
    ensures
        kept_items(items, options, n) == items.take(n as int).filter(
            |item: BodyItem|
                forall|i: int|
                    0 <= i < item.attributes@.len() ==> !attribute_fails(
                        #[trigger] item.attributes@[i],
                        options,
                    ),
        ),
    decreases n,
{
    let stays = |item: BodyItem|
        forall|i: int|
            0 <= i < item.attributes@.len() ==> !attribute_fails(
                #[trigger] item.attributes@[i],
                options,
            );
    if n > 0 {
        lemma_kept_in_order(items, options, (n - 1) as nat);
        lemma_filter_take(items, stays, n - 1);
        dropped_where_an_attribute_fails(items[n - 1].attributes@, options);
    } else {
        reveal(Seq::filter);
        assert(items.take(0) =~= Seq::empty());
    }
}

/// Of a rewritten trait or impl all the nodes are left but those of the items that are dropped, in
/// their order. Nothing is rewritten where nothing is dropped.
pub proof fn rewriting_drops_only_items(
    trait_item: TraitItem,
    impl_item: ImplItem,
    body: Body,
    options: Set<CfgView>,
)
    requires
        trait_item.body == Some(body),
        impl_item.body == Some(body),
    ensures
        ({
            let items = kept_items(body.items@, options, body.items@.len());
            let of_trait = rewritten_nodes(ModuleItemKind::Trait(trait_item), options);
            let of_impl = rewritten_nodes(ModuleItemKind::Impl(impl_item), options);
            let drops = exists|i: int, j: int|
                0 <= i < body.items@.len() && 0 <= j < body.items@[i].attributes@.len()
                    && attribute_fails(#[trigger] body.items@[i].attributes@[j], options);
            &&& of_trait is Some == drops
            &&& of_impl is Some == drops
            &&& of_trait matches Some(nodes) ==> {
                &&& nodes.len() == items.len() + 6
                &&& nodes[0] == trait_item.attributes
                &&& nodes[1] == trait_item.trait_kw
                &&& nodes[2] == trait_item.name
                &&& nodes[3] == trait_item.generic_params
                &&& nodes[4] == body.lbrace
                &&& forall|i: int|
                    0 <= i < items.len() ==> nodes[i + 5] == (#[trigger] items[i]).node
                &&& nodes[nodes.len() - 1] == body.rbrace
            }
            &&& of_impl matches Some(nodes) ==> {
                &&& nodes.len() == items.len() + 8
                &&& nodes[0] == impl_item.attributes
                &&& nodes[1] == impl_item.impl_kw
                &&& nodes[2] == impl_item.name
                &&& nodes[3] == impl_item.generic_params
                &&& nodes[4] == impl_item.of_kw
                &&& nodes[5] == impl_item.trait_path
                &&& nodes[6] == body.lbrace
                &&& forall|i: int|
                    0 <= i < items.len() ==> nodes[i + 7] == (#[trigger] items[i]).node
                &&& nodes[nodes.len() - 1] == body.rbrace
            }
        }),
{
    let all = body.items@;
    assert forall|i: int| 0 <= i < all.len() implies (is_dropped(
        (#[trigger] all[i]).attributes@,
        options,
    ) <==> exists|j: int|
        0 <= j < all[i].attributes@.len() && attribute_fails(
            #[trigger] all[i].attributes@[j],
            options,
        )) by {
        dropped_where_an_attribute_fails(all[i].attributes@, options);
    }
    if kept_nodes(all, options) is Some {
        let i = choose|i: int|
            0 <= i < all.len() && is_dropped((#[trigger] all[i]).attributes@, options);
        let j = choose|j: int|
            0 <= j < all[i].attributes@.len() && attribute_fails(
                #[trigger] all[i].attributes@[j],
                options,
            );
        assert(attribute_fails(all[i].attributes@[j], options));
    }
}

/// The errors of the items of a trait or an impl are those of each item, in their order.
pub proof fn errors_of_items_are_kept(
    trait_item: TraitItem,
    impl_item: ImplItem,
    body: Body,
    options: Set<CfgView>,
)
    requires
        trait_item.body == Some(body),
        impl_item.body == Some(body),
    ensures
        ({
            let errors = body.items@.flat_map(
                |item: BodyItem| drop_errors(item.attributes@, options),
            );
            &&& element_errors(ModuleItemKind::Trait(trait_item), options) == errors
            &&& element_errors(ModuleItemKind::Impl(impl_item), options) == errors
        }),
{
    lemma_items_errors(body.items@, options, body.items@.len());
    assert(body.items@.take(body.items@.len() as int) =~= body.items@);
}

proof fn lemma_items_errors(items: Seq<BodyItem>, options: Set<CfgView>, n: nat)
    requires
        n <= items.len(),
    ensures
        items_errors(items, options, n) == items.take(n as int).flat_map(
            |item: BodyItem| drop_errors(item.attributes@, options),
        ),
    decreases n,
{
    let errors = |item: BodyItem| drop_errors(item.attributes@, options);
    if n > 0 {
        lemma_items_errors(items, options, (n - 1) as nat);
        items.lemma_flat_map_take_append(errors, n - 1);
    } else {
        assert(items.take(0).map_values(errors) =~= Seq::empty());
    }
}

/// The errors of an item are those of its `#[cfg(..)]` attributes, up to the first that fails.
pub proof fn errors_up_to_the_first_failure(
    attrs: Seq<Attribute>,
    options: Set<CfgView>,
    looked_at: int,
)
    requires
        0 <= looked_at <= attrs.len(),
        forall|i: int| 0 <= i < looked_at - 1 ==> !attribute_fails(#[trigger] attrs[i], options),
        looked_at == attrs.len() || (looked_at > 0 && attribute_fails(
            attrs[looked_at - 1],
            options,
        )),
    ensures
        drop_errors(attrs, options) == attrs.take(looked_at).flat_map(
            |attr: Attribute|
                if attr.name@ == "cfg"@ {
                    parsed_items(attr.args@, attr.args@.len()).1
                } else {
                    Seq::empty()
                },
        ),
{
    lemma_looked_at(attrs, options, looked_at as nat);
    if looked_at < attrs.len() {
        lemma_drop_outcome(attrs, options, looked_at as nat);
        lemma_drop_stops(attrs, options, looked_at as nat, attrs.len());
    }
}

proof fn lemma_looked_at(attrs: Seq<Attribute>, options: Set<CfgView>, n: nat)
    requires
        n <= attrs.len(),
        forall|i: int| 0 <= i < n - 1 ==> !attribute_fails(#[trigger] attrs[i], options),
    ensures
        drop_outcome(attrs, options, n).1 == attrs.take(n as int).flat_map(
            |attr: Attribute|
                if attr.name@ == "cfg"@ {
                    parsed_items(attr.args@, attr.args@.len()).1
                } else {
                    Seq::empty()
                },
        ),
    decreases n,
{
    let errors = |attr: Attribute|
        if attr.name@ == "cfg"@ {
            parsed_items(attr.args@, attr.args@.len()).1
        } else {
            Seq::empty()
        };
    if n > 0 {
        lemma_looked_at(attrs, options, (n - 1) as nat);
        lemma_drop_outcome(attrs, options, (n - 1) as nat);
        attrs.lemma_flat_map_take_append(errors, n - 1);
        assert(attribute_errors(attrs[n - 1]) == errors(attrs[n - 1]));
    } else {
        assert(attrs.take(0).map_values(errors) =~= Seq::empty());
    }
}

/// A `#[cfg(..)]` attribute fails exactly where one of its valid arguments does not hold; other
/// attributes never fail.
pub proof fn attributes_fail_where_an_argument_does(attr: Attribute, options: Set<CfgView>)
    ensures
        attribute_fails(attr, options) <==> attr.name@ == "cfg"@ && exists|i: int|
            0 <= i < attr.args@.len() && (parsed_item(#[trigger] attr.args@[i]).0 matches Some(p)
                && !holds(p, options)),
{
    attributes_hold_where_all_arguments_do(attr, options);
}

/// Items without a body of their own are never rewritten, and have no errors but their own.
pub proof fn items_without_a_body_are_not_rewritten(kind: ModuleItemKind, options: Set<CfgView>)
    requires
        match kind {
            ModuleItemKind::Trait(item) => item.body is None,
            ModuleItemKind::Impl(item) => item.body is None,
            ModuleItemKind::Other => true,
        },
    ensures
        rewritten_nodes(kind, options) is None,
        element_errors(kind, options).len() == 0,
{
}

/// The nodes that are kept are those of the kept items, in their order, where something is dropped.
pub proof fn kept_nodes_are_those_of_kept_items(items: Seq<BodyItem>, options: Set<CfgView>)
    ensures
        match kept_nodes(items, options) {
            Some(nodes) => {
                let kept = kept_items(items, options, items.len());
                &&& nodes.len() == kept.len()
                &&& forall|i: int| 0 <= i < kept.len() ==> nodes[i] == (#[trigger] kept[i]).node
                &&& exists|i: int, j: int|
                    0 <= i < items.len() && 0 <= j < items[i].attributes@.len() && attribute_fails(
                        #[trigger] items[i].attributes@[j],
                        options,
                    )
            },
            None => forall|i: int, j: int|
                0 <= i < items.len() && 0 <= j < items[i].attributes@.len() ==> !attribute_fails(
                    #[trigger] items[i].attributes@[j],
                    options,
                ),
        },
{
    assert forall|i: int| 0 <= i < items.len() implies (is_dropped(
        (#[trigger] items[i]).attributes@,
        options,
    ) <==> exists|j: int|
        0 <= j < items[i].attributes@.len() && attribute_fails(
            #[trigger] items[i].attributes@[j],
            options,
        )) by {
        dropped_where_an_attribute_fails(items[i].attributes@, options);
    }
    if kept_nodes(items, options) is Some {
        let i = choose|i: int|
            0 <= i < items.len() && is_dropped((#[trigger] items[i]).attributes@, options);
        let j = choose|j: int|
            0 <= j < items[i].attributes@.len() && attribute_fails(
                #[trigger] items[i].attributes@[j],
                options,
            );
        assert(attribute_fails(items[i].attributes@[j], options));
    } else {
        assert forall|i: int, j: int|
            0 <= i < items.len() && 0 <= j < items[i].attributes@.len() implies !attribute_fails(
            #[trigger] items[i].attributes@[j],
            options,
        ) by {
            assert(!is_dropped(items[i].attributes@, options));
        }
    }
}

} // verus!
