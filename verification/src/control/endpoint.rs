//! What the control tool talks to, and the commands it offers for each.

use vstd::prelude::*;

verus! {

#[derive(Clone, Copy, Debug, PartialEq, Eq, Structural)]
pub enum EndpointKind {
    Node,
    Hub,
    Database,
}

pub open spec fn node_commands() -> Seq<(Seq<char>, Seq<char>)> {
    seq![
        ("get_info"@, "情報取得"@),
        ("get_config"@, "設定取得"@),
        ("get_status"@, "状態取得"@),
        ("get_inputs"@, "入力状態"@),
        ("get_outputs"@, "出力状態"@),
    ]
}

pub open spec fn hub_commands() -> Seq<(Seq<char>, Seq<char>)> {
    seq![("get_info"@, "情報取得"@), ("get_config"@, "設定取得"@), ("get_status"@, "状態取得"@)]
}

pub open spec fn spec_commands(kind: EndpointKind) -> Seq<(Seq<char>, Seq<char>)> {
    match kind {
        EndpointKind::Node => node_commands(),
        EndpointKind::Hub => hub_commands(),
        EndpointKind::Database => Seq::empty(),
    }
}

impl EndpointKind {
    pub fn label(self) -> (r: &'static str)
        ensures
            r@ == match self {
                EndpointKind::Node => "子機"@,
                EndpointKind::Hub => "親機"@,
                EndpointKind::Database => "SQLite"@,
            },
    {
        match self {
            EndpointKind::Node => "子機",
            EndpointKind::Hub => "親機",
            EndpointKind::Database => "SQLite",
        }
    }

    /// The read-only commands offered for the endpoint, with their labels.
    pub fn commands(self) -> (r: &'static [(&'static str, &'static str)])
        ensures
            r@.len() == spec_commands(self).len(),
            forall|i: int|
                0 <= i < r@.len() ==> (#[trigger] r@[i]).0@ == spec_commands(self)[i].0 && r@[i].1@
                    == spec_commands(self)[i].1,
    {
        match self {
            EndpointKind::Node => {
                let r: &'static [(&'static str, &'static str)] = &[
                    ("get_info", "情報取得"),
                    ("get_config", "設定取得"),
                    ("get_status", "状態取得"),
                    ("get_inputs", "入力状態"),
                    ("get_outputs", "出力状態"),
                ];
                r
            },
            EndpointKind::Hub => {
                let r: &'static [(&'static str, &'static str)] = &[
                    ("get_info", "情報取得"),
                    ("get_config", "設定取得"),
                    ("get_status", "状態取得"),
                ];
                r
            },
            EndpointKind::Database => {
                let r: &'static [(&'static str, &'static str)] = &[];
                r
            },
        }
    }
}

/// A command that asks for confirmation first.
#[derive(Clone, Copy, Debug, PartialEq, Eq, Structural)]
pub enum ConfirmationAction {
    FactoryReset,
    Reboot,
}

impl ConfirmationAction {
    pub fn command(self) -> (r: &'static str)
        ensures
            r@ == match self {
                ConfirmationAction::FactoryReset => "factory_reset"@,
                ConfirmationAction::Reboot => "reboot"@,
            },
    {
        match self {
            ConfirmationAction::FactoryReset => "factory_reset",
            ConfirmationAction::Reboot => "reboot",
        }
    }

    pub fn title(self, endpoint: EndpointKind) -> (r: &'static str)
        ensures
            r@ == match (self, endpoint) {
                (ConfirmationAction::FactoryReset, _) => "設定を初期化しますか？"@,
                (ConfirmationAction::Reboot, EndpointKind::Node) => "子機を再起動しますか？"@,
                (ConfirmationAction::Reboot, EndpointKind::Hub) => "親機の再起動要求を送信しますか？"@,
                (ConfirmationAction::Reboot, EndpointKind::Database) => ""@,
            },
    {
        match (self, endpoint) {
            (ConfirmationAction::FactoryReset, _) => "設定を初期化しますか？",
            (ConfirmationAction::Reboot, EndpointKind::Node) => "子機を再起動しますか？",
            (ConfirmationAction::Reboot, EndpointKind::Hub) => "親機の再起動要求を送信しますか？",
            (ConfirmationAction::Reboot, EndpointKind::Database) => "",
        }
    }
}

#[derive(Clone, Copy, Debug, PartialEq, Eq, Structural)]
pub enum DatabaseSection {
    Devices,
    Families,
    Actions,
    Destinations,
    Events,
}

impl DatabaseSection {
    pub fn label(self) -> (r: &'static str)
        ensures
            r@ == match self {
                DatabaseSection::Devices => "子機"@,
                DatabaseSection::Families => "家族"@,
                DatabaseSection::Actions => "Action"@,
                DatabaseSection::Destinations => "通知先"@,
                DatabaseSection::Events => "履歴"@,
            },
    {
        match self {
            DatabaseSection::Devices => "子機",
            DatabaseSection::Families => "家族",
            DatabaseSection::Actions => "Action",
            DatabaseSection::Destinations => "通知先",
            DatabaseSection::Events => "履歴",
        }
    }
}

} // verus!
