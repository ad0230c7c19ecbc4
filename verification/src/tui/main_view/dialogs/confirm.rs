//! Confirmation of an action on one app.
use vstd::prelude::*;

use crate::app::SharedAppConfig;
use crate::collections::{has_key, map_get};

verus! {

pub enum ConfirmKind {
    SetPrimary { file_path: String, app_name: String },
    RemoveApp { app_name: String },
}

pub struct ConfirmState {
    pub kind: ConfirmKind,
}

impl ConfirmState {
    pub fn set_primary(file_path: String, app_name: String) -> (r: Self)
        ensures
            r.kind == (ConfirmKind::SetPrimary { file_path, app_name }),
    {
        ConfirmState { kind: ConfirmKind::SetPrimary { file_path, app_name } }
    }

    pub fn remove_app(app_name: String) -> (r: Self)
        ensures
            r.kind == (ConfirmKind::RemoveApp { app_name }),
    {
        ConfirmState { kind: ConfirmKind::RemoveApp { app_name } }
    }

    /// Name of the app the confirmation is about.
    pub fn app_name(&self) -> (r: &str)
        ensures
            r@ == (match self.kind {
                ConfirmKind::SetPrimary { app_name, .. } => app_name@,
                ConfirmKind::RemoveApp { app_name } => app_name@,
            }),
    {
        match &self.kind {
            ConfirmKind::SetPrimary { app_name, .. } => app_name.as_str(),
            ConfirmKind::RemoveApp { app_name } => app_name.as_str(),
        }
    }

    /// Applies an accepted "set primary" confirmation to `config`: the app's primary
    /// config becomes the file. Returns whether the config changed (false for an app
    /// removal, which is carried out elsewhere, or an unknown app).
    pub fn accept(&self, config: &mut SharedAppConfig) -> (changed: bool)
        ensures
            changed == (self.kind matches ConfirmKind::SetPrimary { app_name, .. } && has_key(
                old(config).apps@,
                app_name@,
            )),
            final(config).profiles == old(config).profiles,
            final(config).ignored == old(config).ignored,
            final(config).remote == old(config).remote,
            !changed ==> final(config).apps@ == old(config).apps@,
            changed ==> (self.kind matches ConfirmKind::SetPrimary { file_path, app_name } && {
                &&& forall|k: Seq<char>| #[trigger] has_key(final(config).apps@, k) == has_key(old(config).apps@, k)
                &&& forall|k: Seq<char>| k != app_name@ ==> #[trigger] map_get(final(config).apps@, k) == map_get(old(config).apps@, k)
                &&& map_get(final(config).apps@, app_name@) matches Some(a) && map_get(old(config).apps@, app_name@) matches Some(o)
                    && a.primary_config == Some(file_path) && a.on_profiles == o.on_profiles
                    && a.is_dir == o.is_dir && a.ignore == o.ignore
            }),
    {
        match &self.kind {
            ConfirmKind::SetPrimary { file_path, app_name } => {
                match config.apps.remove(app_name.as_str()) {
                    None => false,
                    Some(app) => {
                        let mut app = app;
                        app.primary_config = Some(file_path.clone());
                        config.apps.insert(app_name.clone(), app);
                        true
                    },
                }
            },
            ConfirmKind::RemoveApp { .. } => false,
        }
    }
}

} // verus!
