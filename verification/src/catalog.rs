//! The static app-name resolver.
//!
//! Declarations name apps by friendly names (`fortnite`, `youtube`, ...);
//! the remote controller blocks by numeric application identifiers. This
//! table maps one to the other. Resolution silently drops names the table
//! does not know; a declaration whose whole list resolves to nothing is
//! rejected by the lifecycle controller.

use vstd::prelude::*;
use crate::naming::str_eq;

verus! {

/// One row of the resolver table.
pub struct AppEntry {
    pub name: String,
    pub app_id: String,
}

/// Mathematical model of a table row.
pub struct AppEntryModel {
    pub name: Seq<char>,
    pub app_id: Seq<char>,
}

impl View for AppEntry {
    type V = AppEntryModel;

    open spec fn view(&self) -> AppEntryModel {
        AppEntryModel { name: self.name@, app_id: self.app_id@ }
    }
}

impl DeepView for AppEntry {
    type V = AppEntryModel;

    open spec fn deep_view(&self) -> AppEntryModel {
        self.view()
    }
}

/// The app-name resolver: a fixed list of name/identifier rows.
pub struct AppCatalog {
    pub entries: Vec<AppEntry>,
}

/// The identifier of the first row whose name matches, if any.
pub open spec fn lookup_spec(entries: Seq<AppEntryModel>, name: Seq<char>) -> Option<Seq<char>>
    decreases entries.len(),
{
    if entries.len() == 0 {
        None
    } else if entries[0].name == name {
        Some(entries[0].app_id)
    } else {
        lookup_spec(entries.drop_first(), name)
    }
}

/// The identifiers the names resolve to, in order, unknown names dropped.
pub open spec fn resolve_spec(entries: Seq<AppEntryModel>, names: Seq<Seq<char>>) -> Seq<
    Seq<char>,
>
    decreases names.len(),
{
    if names.len() == 0 {
        Seq::empty()
    } else {
        let rest = resolve_spec(entries, names.drop_last());
        match lookup_spec(entries, names.last()) {
            Some(id) => rest.push(id),
            None => rest,
        }
    }
}

impl AppCatalog {
    /// The identifier the given app name resolves to, if the table knows it.
    pub fn lookup(&self, name: &str) -> (r: Option<String>)
        ensures
            r.deep_view() == lookup_spec(self.entries.deep_view(), name@),
    {
        let ghost table = self.entries.deep_view();
        proof {
            assert(table.skip(0) =~= table);
        }
        let mut i: usize = 0;
        while i < self.entries.len()
            invariant
                i <= self.entries@.len(),
                table == self.entries.deep_view(),
                table.len() == self.entries@.len(),
                lookup_spec(table, name@) == lookup_spec(table.skip(i as int), name@),
            decreases self.entries@.len() - i,
        {
            if str_eq(self.entries[i].name.as_str(), name) {
                let r = Some(self.entries[i].app_id.clone());
                proof {
                    assert(table.skip(i as int)[0] == table[i as int]);
                }
                return r;
            }
            proof {
                assert(table.skip(i as int).drop_first() =~= table.skip(i as int + 1));
                assert(table.skip(i as int)[0] == table[i as int]);
            }
            i = i + 1;
        }
        proof {
            assert(table.skip(self.entries@.len() as int).len() == 0);
        }
        None
    }

    /// The identifiers the given names resolve to, in order, with names the
    /// table does not know silently dropped.
    pub fn resolve(&self, names: &Vec<String>) -> (r: Vec<String>)
        ensures
            r.deep_view() == resolve_spec(self.entries.deep_view(), names.deep_view()),
    {
        let ghost table = self.entries.deep_view();
        let ghost all = names.deep_view();
        let mut out: Vec<String> = Vec::new();
        let mut i: usize = 0;
        while i < names.len()
            invariant
                i <= names@.len(),
                table == self.entries.deep_view(),
                all == names.deep_view(),
                all.len() == names@.len(),
                out.deep_view() == resolve_spec(table, all.take(i as int)),
            decreases names@.len() - i,
        {
            let found = self.lookup(names[i].as_str());
            proof {
                assert(all.take(i as int + 1).drop_last() =~= all.take(i as int));
                assert(all.take(i as int + 1).last() == all[i as int]);
            }
            match found {
                Some(id) => {
                    out.push(id);
                    proof {
                        assert(out.deep_view() =~= resolve_spec(table, all.take(i as int + 1)));
                    }
                },
                None => {
                    proof {
                        assert(out.deep_view() =~= resolve_spec(table, all.take(i as int + 1)));
                    }
                },
            }
            i = i + 1;
        }
        proof {
            assert(all.take(names@.len() as int) =~= all);
        }
        out
    }
}

/// The table rows the default resolver carries.
pub open spec fn default_entries() -> Seq<AppEntryModel> {
    seq![
        AppEntryModel { name: "fortnite"@, app_id: "655369"@ },
        AppEntryModel { name: "roblox"@, app_id: "851993"@ },
        AppEntryModel { name: "youtube"@, app_id: "851969"@ },
        AppEntryModel { name: "tiktok"@, app_id: "855327"@ },
        AppEntryModel { name: "instagram"@, app_id: "655311"@ },
        AppEntryModel { name: "snapchat"@, app_id: "655301"@ },
        AppEntryModel { name: "netflix"@, app_id: "655324"@ },
        AppEntryModel { name: "twitch"@, app_id: "655328"@ },
        AppEntryModel { name: "discord"@, app_id: "655365"@ },
        AppEntryModel { name: "minecraft"@, app_id: "655370"@ },
    ]
}

/// The resolver with the built-in app table.
pub fn default_catalog() -> (r: AppCatalog)
    ensures
        r.entries.deep_view() == default_entries(),
{
    let mut entries: Vec<AppEntry> = Vec::new();
    entries.push(AppEntry { name: "fortnite".to_owned(), app_id: "655369".to_owned() });
    entries.push(AppEntry { name: "roblox".to_owned(), app_id: "851993".to_owned() });
    entries.push(AppEntry { name: "youtube".to_owned(), app_id: "851969".to_owned() });
    entries.push(AppEntry { name: "tiktok".to_owned(), app_id: "855327".to_owned() });
    entries.push(AppEntry { name: "instagram".to_owned(), app_id: "655311".to_owned() });
    entries.push(AppEntry { name: "snapchat".to_owned(), app_id: "655301".to_owned() });
    entries.push(AppEntry { name: "netflix".to_owned(), app_id: "655324".to_owned() });
    entries.push(AppEntry { name: "twitch".to_owned(), app_id: "655328".to_owned() });
    entries.push(AppEntry { name: "discord".to_owned(), app_id: "655365".to_owned() });
    entries.push(AppEntry { name: "minecraft".to_owned(), app_id: "655370".to_owned() });
    proof {
        assert(entries.deep_view() =~= default_entries());
    }
    AppCatalog { entries }
}

} // verus!
