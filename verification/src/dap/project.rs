//! The project that a server runs: its contracts, its accounts and its manifest.

use crate::contracts::{ids, ContractId, ContractIdView};
use crate::json::{fields_view, push_field, Json, JsonView};
use crate::text::same_text;
use vstd::prelude::*;

verus! {

/// An account of the genesis block.
#[derive(Debug, PartialEq)]
pub struct Wallet {
    pub name: String,
    pub address: String,
}

pub struct WalletView {
    pub name: Seq<char>,
    pub address: Seq<char>,
}

impl View for Wallet {
    type V = WalletView;

    open spec fn view(&self) -> WalletView {
        WalletView { name: self.name@, address: self.address@ }
    }
}

/// The views of a list of wallets.
pub open spec fn wallet_views(wallets: Seq<Wallet>) -> Seq<WalletView> {
    wallets.map_values(|wallet: Wallet| wallet@)
}

/// The address of each account by its name. The last of two accounts of one name
/// counts.
pub open spec fn accounts_of(wallets: Seq<WalletView>) -> Map<Seq<char>, Seq<char>>
    decreases wallets.len(),
{
    if wallets.len() == 0 {
        Map::empty()
    } else {
        accounts_of(wallets.drop_last()).insert(wallets.last().name, wallets.last().address)
    }
}

/// The address of the account `deployer`; empty where there is none.
pub open spec fn deployer_of(wallets: Seq<WalletView>) -> Seq<char> {
    let accounts = accounts_of(wallets);
    if accounts.contains_key("deployer"@) {
        accounts["deployer"@]
    } else {
        Seq::empty()
    }
}

/// What a server knows of its project.
#[derive(Debug, PartialEq)]
pub struct Project {
    /// The deployed contracts.
    pub contracts: Vec<ContractId>,
    /// The accounts of the genesis block.
    pub wallets: Vec<Wallet>,
    /// The path of the manifest, free of symbolic links and relative parts.
    pub manifest: String,
}

pub struct ProjectView {
    pub contracts: Seq<ContractIdView>,
    pub wallets: Seq<WalletView>,
    pub manifest: Seq<char>,
}

impl View for Project {
    type V = ProjectView;

    open spec fn view(&self) -> ProjectView {
        ProjectView {
            contracts: ids(self.contracts@),
            wallets: wallet_views(self.wallets@),
            manifest: self.manifest@,
        }
    }
}

/// A map of texts as a JSON object.
pub open spec fn text_object(map: Map<Seq<char>, Seq<char>>) -> JsonView {
    JsonView::Object(map.map_values(|text: Seq<char>| JsonView::Text(text)))
}

/// The accounts as a JSON object from name to address.
pub fn accounts_json(wallets: &Vec<Wallet>) -> (json: Json)
    ensures
        json@ == text_object(accounts_of(wallet_views(wallets@))),
{
    let mut fields: Vec<(String, Json)> = Vec::new();
    let ghost views = wallet_views(wallets@);
    let ghost text = |text: Seq<char>| JsonView::Text(text);
    for i in 0..wallets.len()
        invariant
            views == wallet_views(wallets@),
            text == (|text: Seq<char>| JsonView::Text(text)),
            fields_view(fields@) == accounts_of(views.take(i as int)).map_values(text),
    {
        let ghost before = accounts_of(views.take(i as int));
        assert(views.take(i + 1).drop_last() =~= views.take(i as int));
        push_field(
            &mut fields,
            wallets[i].name.as_str(),
            Json::Text(wallets[i].address.clone()),
        );
        assert(before.insert(wallets@[i as int].name@, wallets@[i as int].address@).map_values(text)
            =~= before.map_values(text).insert(
            wallets@[i as int].name@,
            JsonView::Text(wallets@[i as int].address@),
        ));
    }
    assert(views.take(wallets.len() as int) =~= views);
    Json::Object(fields)
}

/// The address of the account `deployer`.
pub fn deployer_address(wallets: &Vec<Wallet>) -> (address: String)
    ensures
        address@ == deployer_of(wallet_views(wallets@)),
{
    let mut address = String::new();
    let ghost views = wallet_views(wallets@);
    for i in 0..wallets.len()
        invariant
            views == wallet_views(wallets@),
            address@ == deployer_of(views.take(i as int)),
    {
        assert(views.take(i + 1).drop_last() =~= views.take(i as int));
        if same_text(wallets[i].name.as_str(), "deployer") {
            address = wallets[i].address.clone();
        }
    }
    assert(views.take(wallets.len() as int) =~= views);
    address
}

/// The deployer is one of the accounts, where the project has one.
pub proof fn law_deployer_is_an_account(wallets: Seq<WalletView>, at: int)
    requires
        0 <= at < wallets.len(),
        wallets[at].name == "deployer"@,
    ensures
        accounts_of(wallets).contains_pair("deployer"@, deployer_of(wallets)),
    decreases wallets.len(),
{
    if at < wallets.len() - 1 {
        law_deployer_is_an_account(wallets.drop_last(), at);
    }
}

} // verus!
