//! The menu in the menu bar: the providers on it, and what its items do.
use vstd::prelude::*;

use crate::codex_provider;
use crate::codex_provider::{CodexProviderView, ShownProvider};
use crate::text;

verus! {

/// An item of the menu of providers.
#[derive(Debug, Clone, PartialEq, Eq)]
pub struct TrayItem {
    pub id: String,
    pub label: String,
    pub enabled: bool,
    /// Whether the item is checked; items that cannot be checked have none.
    pub checked: Option<bool>,
}

/// What a `TrayItem` says.
pub struct ItemModel {
    pub id: Seq<char>,
    pub label: Seq<char>,
    pub enabled: bool,
    pub checked: Option<bool>,
}

impl View for TrayItem {
    type V = ItemModel;

    open spec fn view(&self) -> ItemModel {
        ItemModel {
            id: self.id@,
            label: self.label@,
            enabled: self.enabled,
            checked: self.checked,
        }
    }
}

/// The menu of providers.
#[derive(Debug, Clone, PartialEq, Eq)]
pub struct ProviderMenu {
    pub title: String,
    pub items: Vec<TrayItem>,
}

/// The views of a list of items.
pub open spec fn item_views(items: Seq<TrayItem>) -> Seq<ItemModel> {
    items.map_values(|item: TrayItem| item@)
}

/// The views of a list of shown providers.
pub open spec fn shown_views(providers: Seq<CodexProviderView>) -> Seq<ShownProvider> {
    providers.map_values(|provider: CodexProviderView| provider@)
}

/// The name of the first provider in use.
pub open spec fn active_name(providers: Seq<ShownProvider>) -> Option<Seq<char>>
    decreases providers.len(),
{
    if providers.len() == 0 {
        None
    } else if providers[0].active {
        Some(providers[0].name)
    } else {
        active_name(providers.skip(1))
    }
}

/// The title of the menu of providers.
pub open spec fn menu_title(providers: Seq<ShownProvider>) -> Seq<char> {
    if providers.len() == 0 {
        "Codex · 未配置"@
    } else {
        match active_name(providers) {
            Some(name) => "Codex · "@ + name,
            None => "Codex · default"@,
        }
    }
}

/// The item that stands for a provider.
pub open spec fn provider_item(provider: ShownProvider) -> ItemModel {
    ItemModel {
        id: "codex-provider:"@ + provider.id,
        label: provider.name,
        enabled: true,
        checked: Some(provider.active),
    }
}

/// The items of the menu of providers.
pub open spec fn menu_items(providers: Seq<ShownProvider>) -> Seq<ItemModel> {
    if providers.len() == 0 {
        seq![
            ItemModel {
                id: "codex-provider-empty"@,
                label: "暂无供应商"@,
                enabled: false,
                checked: None,
            },
        ]
    } else {
        providers.map_values(|provider: ShownProvider| provider_item(provider))
    }
}

/// The menu of providers.
pub fn codex_provider_menu(providers: &Vec<CodexProviderView>) -> (res: ProviderMenu)
    ensures
        res.title@ == menu_title(shown_views(providers@)),
        item_views(res.items@) == menu_items(shown_views(providers@)),
{
    let ghost views = shown_views(providers@);
    let mut items: Vec<TrayItem> = Vec::new();
    if providers.len() == 0 {
        items.push(
            TrayItem {
                id: "codex-provider-empty".to_owned(),
                label: "暂无供应商".to_owned(),
                enabled: false,
                checked: None,
            },
        );
        assert(item_views(items@) =~= menu_items(views));
        return ProviderMenu { title: "Codex · 未配置".to_owned(), items };
    }
    let mut active: Option<String> = None;
    let mut i: usize = 0;
    assert(views.skip(0) =~= views);
    while i < providers.len()
        invariant
            i <= providers@.len(),
            views == shown_views(providers@),
            items@.len() == i,
            forall|k: int| 0 <= k < i ==> (#[trigger] items@[k])@ == provider_item(views[k]),
            active_name(views) == match active {
                Some(name) => Some(name@),
                None => active_name(views.skip(i as int)),
            },
        decreases providers.len() - i,
    {
        let provider = &providers[i];
        assert(views.skip(i as int)[0] == provider@);
        assert(views.skip(i as int).skip(1) =~= views.skip(i + 1));
        if active.is_none() && provider.active {
            active = Some(provider.name.clone());
        }
        items.push(
            TrayItem {
                id: text::cat("codex-provider:", provider.id.as_str()),
                label: provider.name.clone(),
                enabled: true,
                checked: Some(provider.active),
            },
        );
        i += 1;
    }
    assert(item_views(items@) =~= menu_items(views));
    let title = match active {
        Some(name) => text::cat("Codex · ", name.as_str()),
        None => "Codex · default".to_owned(),
    };
    ProviderMenu { title, items }
}

/// What an item of the menu does.
#[derive(Debug, Clone, PartialEq, Eq)]
pub enum TrayAction {
    OpenMain,
    Quit,
    /// Put the provider with this id to use.
    Activate(String),
    Refresh,
}

/// What a `TrayAction` says.
pub enum TrayActionModel {
    OpenMain,
    Quit,
    Activate(Seq<char>),
    Refresh,
}

impl View for TrayAction {
    type V = TrayActionModel;

    open spec fn view(&self) -> TrayActionModel {
        match *self {
            TrayAction::OpenMain => TrayActionModel::OpenMain,
            TrayAction::Quit => TrayActionModel::Quit,
            TrayAction::Activate(id) => TrayActionModel::Activate(id@),
            TrayAction::Refresh => TrayActionModel::Refresh,
        }
    }
}

/// What the item with an id does.
pub open spec fn action_of(id: Seq<char>) -> TrayActionModel {
    if id == "open-main"@ {
        TrayActionModel::OpenMain
    } else if id == "quit"@ {
        TrayActionModel::Quit
    } else if text::has_prefix(id, "codex-provider:"@) {
        TrayActionModel::Activate(text::strip_prefixes(id, "codex-provider:"@))
    } else {
        TrayActionModel::Refresh
    }
}

/// What the item with an id does.
pub fn tray_action(id: &str) -> (res: TrayAction)
    ensures
        res@ == action_of(id@),
{
    if text::eq(id, "open-main") {
        TrayAction::OpenMain
    } else if text::eq(id, "quit") {
        TrayAction::Quit
    } else if text::begins_with(id, "codex-provider:") {
        TrayAction::Activate(text::without_prefixes(id, "codex-provider:"))
    } else {
        TrayAction::Refresh
    }
}

/// The item of a provider puts that provider to use, for every id that is a key.
pub proof fn law_provider_item_activates_it(provider: ShownProvider)
    requires
        codex_provider::is_key(provider.id),
    ensures
        action_of(provider_item(provider).id) == TrayActionModel::Activate(provider.id),
{
    let prefix = "codex-provider:"@;
    let id = provider.id;
    let whole = prefix + id;
    reveal_strlit("codex-provider:");
    reveal_strlit("open-main");
    reveal_strlit("quit");
    assert(prefix.len() == 15);
    assert(whole[0] == 'c');
    assert("open-main"@[0] == 'o');
    assert("quit"@[0] == 'q');
    assert(whole.take(15) =~= prefix);
    assert(whole.skip(15) =~= id);
    if text::has_prefix(id, prefix) {
        assert(id.take(15)[5] == '-');
        assert(id[5] == '-');
    }
    assert(text::strip_prefixes(whole, prefix) == text::strip_prefixes(id, prefix));
}

/// The menu lists every provider in its place, by its name, checked exactly where it is in use; a
/// menu without providers says so, in an item that does nothing.
pub proof fn law_menu_lists_every_provider(
    providers: &Vec<CodexProviderView>,
    i: int,
    res: ProviderMenu,
)
    requires
        call_ensures(codex_provider_menu, (providers,), res),
    ensures
        providers@.len() == 0 ==> res.items@.len() == 1 && !res.items@[0].enabled
            && res.items@[0].checked is None && res.items@[0].label@ == "暂无供应商"@
            && res.items@[0].id@ == "codex-provider-empty"@ && res.title@ == "Codex · 未配置"@,
        providers@.len() > 0 ==> res.items@.len() == providers@.len(),
        0 <= i < providers@.len() ==> {
            let item = res.items@[i]@;
            &&& item.id == "codex-provider:"@ + providers@[i]@.id
            &&& item.label == providers@[i]@.name
            &&& item.enabled
            &&& item.checked == Some(providers@[i]@.active)
        },
{
    let views = shown_views(providers@);
    let items = item_views(res.items@);
    assert(items.len() == res.items@.len());
    assert(forall|k: int| 0 <= k < res.items@.len() ==> items[k] == (#[trigger] res.items@[k])@);
    if 0 <= i < providers@.len() {
        assert(views[i] == providers@[i]@);
        assert(items[i] == res.items@[i]@);
    } else if providers@.len() == 0 {
        assert(items[0] == res.items@[0]@);
    }
}

/// The name of the first provider in use, by its place.
proof fn lemma_active_name(providers: Seq<ShownProvider>, at: int)
    requires
        0 <= at < providers.len(),
        providers[at].active,
        forall|k: int| 0 <= k < at ==> !(#[trigger] providers[k]).active,
    ensures
        active_name(providers) == Some(providers[at].name),
    decreases providers.len(),
{
    if at > 0 {
        assert(!providers[0].active);
        let rest = providers.skip(1);
        assert forall|k: int| 0 <= k < at - 1 implies !(#[trigger] rest[k]).active by {
            assert(rest[k] == providers[k + 1]);
        }
        lemma_active_name(rest, at - 1);
    }
}

/// No provider in use has no name.
proof fn lemma_no_active_name(providers: Seq<ShownProvider>)
    requires
        forall|k: int| 0 <= k < providers.len() ==> !(#[trigger] providers[k]).active,
    ensures
        active_name(providers) is None,
    decreases providers.len(),
{
    if providers.len() > 0 {
        assert(!providers[0].active);
        let rest = providers.skip(1);
        assert forall|k: int| 0 <= k < rest.len() implies !(#[trigger] rest[k]).active by {
            assert(rest[k] == providers[k + 1]);
        }
        lemma_no_active_name(rest);
    }
}

/// The title names the first provider that is in use, and the default where none is.
pub proof fn law_title_names_the_one_in_use(
    providers: &Vec<CodexProviderView>,
    at: int,
    res: ProviderMenu,
)
    requires
        call_ensures(codex_provider_menu, (providers,), res),
    ensures
        0 <= at < providers@.len() && providers@[at]@.active && (forall|k: int|
            0 <= k < at ==> !(#[trigger] providers@[k])@.active) ==> res.title@ == "Codex · "@
            + providers@[at]@.name,
        providers@.len() > 0 && (forall|k: int|
            0 <= k < providers@.len() ==> !(#[trigger] providers@[k])@.active) ==> res.title@
            == "Codex · default"@,
{
    let views = shown_views(providers@);
    assert(forall|k: int| 0 <= k < providers@.len() ==> #[trigger] views[k] == providers@[k]@);
    if 0 <= at < providers@.len() && providers@[at]@.active && (forall|k: int|
        0 <= k < at ==> !(#[trigger] providers@[k])@.active) {
        assert forall|k: int| 0 <= k < at implies !(#[trigger] views[k]).active by {
            assert(!providers@[k]@.active);
        }
        lemma_active_name(views, at);
    }
    if forall|k: int| 0 <= k < providers@.len() ==> !(#[trigger] providers@[k])@.active {
        assert forall|k: int| 0 <= k < views.len() implies !(#[trigger] views[k]).active by {
            assert(!providers@[k]@.active);
        }
        lemma_no_active_name(views);
    }
}

/// The items of the menu do what their ids say: they open the window, quit, or put a provider to
/// use, and any other brings the menu up to date.
pub proof fn law_items_do_what_their_ids_say(id: &str, provider: Seq<char>, res: TrayAction)
    requires
        call_ensures(tray_action, (id,), res),
        codex_provider::is_key(provider),
    ensures
        id@ == "open-main"@ ==> res@ == TrayActionModel::OpenMain,
        id@ == "quit"@ ==> res@ == TrayActionModel::Quit,
        id@ == "codex-provider:"@ + provider ==> res@ == TrayActionModel::Activate(provider),
        id@.len() > 0 && id@[0] != 'o' && id@[0] != 'q' && id@[0] != 'c' ==> res@
            == TrayActionModel::Refresh,
        id@ == "codex-provider-empty"@ ==> res@ == TrayActionModel::Refresh,
{
    reveal_strlit("open-main");
    reveal_strlit("quit");
    reveal_strlit("codex-provider:");
    reveal_strlit("codex-provider-empty");
    assert("open-main"@.len() == 9);
    assert("quit"@.len() == 4);
    assert("codex-provider:"@.len() == 15);
    assert("codex-provider-empty"@.len() == 20);
    assert("open-main"@[0] == 'o');
    assert("quit"@[0] == 'q');
    assert("codex-provider:"@[0] == 'c');
    assert("codex-provider:"@[14] == ':');
    assert("codex-provider-empty"@[14] == '-');
    assert("codex-provider-empty"@[0] == 'c');
    if id@ == "codex-provider:"@ + provider {
        let shown = arbitrary::<ShownProvider>();
        law_provider_item_activates_it(ShownProvider { id: provider, ..shown });
    }
    if text::has_prefix(id@, "codex-provider:"@) {
        assert(id@.take(15)[0] == id@[0]);
        assert(id@.take(15)[14] == id@[14]);
    }
}

} // verus!
