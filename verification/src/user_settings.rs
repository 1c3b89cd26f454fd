//! Per-user settings: an optional model override, consumed (cleared) the
//! next time it is read, and an optional sticky personality that persists
//! across threads until changed. Both live on one row per user.

use vstd::prelude::*;

use crate::gpt::{spec_find_model, Gpt};
use crate::response_styles::{wrap_custom, wrapped_custom};
use crate::text::str_eq;

verus! {

/// One user's stored settings.
pub struct SettingsRow {
    pub user: u64,
    pub model: Option<String>,
    pub personality: Option<String>,
}

/// The per-user settings store: at most one row per user.
pub struct UserSettingsStore {
    rows: Vec<SettingsRow>,
}

spec fn spec_find_row(rows: Seq<SettingsRow>, user: u64) -> Option<SettingsRow>
    decreases rows.len(),
{
    if rows.len() == 0 {
        None
    } else if rows[0].user == user {
        Some(rows[0])
    } else {
        spec_find_row(rows.skip(1), user)
    }
}

spec fn settings_unique(rows: Seq<SettingsRow>) -> bool {
    forall|i: int, j: int| 0 <= i < j < rows.len() ==> rows[i].user != rows[j].user
}

/// Overwriting the first row of a user keeps every other lookup unchanged.
proof fn lemma_settings_update(rows: Seq<SettingsRow>, i: int, row2: SettingsRow)
    requires
        0 <= i < rows.len(),
        rows[i].user == row2.user,
        forall|k: int| 0 <= k < i ==> rows[k].user != row2.user,
    ensures
        spec_find_row(rows.update(i, row2), row2.user) == Some(row2),
        forall|v: u64|
            v != row2.user ==> spec_find_row(rows.update(i, row2), v) == spec_find_row(rows, v),
    decreases rows.len(),
{
    let upd = rows.update(i, row2);
    if i == 0 {
        assert(upd[0] == row2);
        assert(upd.skip(1) =~= rows.skip(1));
        assert forall|v: u64| v != row2.user implies spec_find_row(upd, v) == spec_find_row(
            rows,
            v,
        ) by {
            assert(spec_find_row(upd, v) == spec_find_row(upd.skip(1), v));
            assert(spec_find_row(rows, v) == spec_find_row(rows.skip(1), v));
        }
    } else {
        assert(upd[0] == rows[0]);
        assert(upd.skip(1) =~= rows.skip(1).update(i - 1, row2));
        lemma_settings_update(rows.skip(1), i - 1, row2);
        assert(rows[0].user != row2.user);
        assert(spec_find_row(upd, row2.user) == spec_find_row(upd.skip(1), row2.user));
        assert forall|v: u64| v != row2.user implies spec_find_row(upd, v) == spec_find_row(
            rows,
            v,
        ) by {
            if upd[0].user == v {
            } else {
                assert(spec_find_row(upd, v) == spec_find_row(upd.skip(1), v));
                assert(spec_find_row(rows, v) == spec_find_row(rows.skip(1), v));
            }
        }
    }
}

/// Appending a row for a fresh user adds exactly that user's settings.
proof fn lemma_settings_push(rows: Seq<SettingsRow>, row: SettingsRow, user: u64)
    ensures
        spec_find_row(rows.push(row), user) == if spec_find_row(rows, user) is Some {
            spec_find_row(rows, user)
        } else if row.user == user {
            Some(row)
        } else {
            None
        },
    decreases rows.len(),
{
    let p = rows.push(row);
    if rows.len() == 0 {
        assert(p[0] == row);
        assert(p.skip(1) =~= Seq::<SettingsRow>::empty());
        if row.user != user {
            assert(spec_find_row(p, user) == spec_find_row(p.skip(1), user));
        }
    } else {
        assert(p[0] == rows[0]);
        assert(p.skip(1) =~= rows.skip(1).push(row));
        lemma_settings_push(rows.skip(1), row, user);
        if rows[0].user != user {
            assert(spec_find_row(p, user) == spec_find_row(p.skip(1), user));
            assert(spec_find_row(rows, user) == spec_find_row(rows.skip(1), user));
        }
    }
}

/// A missed lookup rules every row out.
proof fn lemma_settings_find_props(rows: Seq<SettingsRow>, user: u64)
    ensures
        spec_find_row(rows, user) is None ==> forall|i: int|
            0 <= i < rows.len() ==> rows[i].user != user,
    decreases rows.len(),
{
    if rows.len() > 0 {
        lemma_settings_find_props(rows.skip(1), user);
        if rows[0].user != user && spec_find_row(rows, user) is None {
            assert forall|i: int| 0 <= i < rows.len() implies rows[i].user != user by {
                if i > 0 {
                    assert(rows.skip(1)[i - 1].user != user);
                }
            }
        }
    }
}

impl UserSettingsStore {
    pub closed spec fn wf(&self) -> bool {
        settings_unique(self.rows@)
    }

    pub closed spec fn row(&self, user: u64) -> Option<SettingsRow> {
        spec_find_row(self.rows@, user)
    }

    /// The user's stored one-shot model override, if any.
    pub open spec fn spec_model(&self, user: u64) -> Option<String> {
        match self.row(user) {
            Some(row) => row.model,
            None => None,
        }
    }

    /// The user's stored sticky personality, if any.
    pub open spec fn spec_personality(&self, user: u64) -> Option<String> {
        match self.row(user) {
            Some(row) => row.personality,
            None => None,
        }
    }

    pub fn new() -> (r: Self)
        ensures
            r.wf(),
            forall|user: u64| r.row(user) is None,
    {
        UserSettingsStore { rows: Vec::new() }
    }

    fn find_row(&self, user: u64) -> (r: Option<usize>)
        ensures
            match r {
                Some(i) => {
                    &&& i < self.rows@.len()
                    &&& self.rows@[i as int].user == user
                    &&& self.row(user) == Some(self.rows@[i as int])
                    &&& forall|k: int| 0 <= k < i ==> self.rows@[k].user != user
                },
                None => self.row(user) is None,
            },
    {
        let len = self.rows.len();
        proof {
            assert(self.rows@.skip(0) =~= self.rows@);
        }
        let mut i: usize = 0;
        while i < len
            invariant
                i <= len,
                len == self.rows@.len(),
                spec_find_row(self.rows@, user) == spec_find_row(self.rows@.skip(i as int), user),
                forall|k: int| 0 <= k < i ==> self.rows@[k].user != user,
            decreases len - i,
        {
            proof {
                assert(self.rows@.skip(i as int)[0] == self.rows@[i as int]);
                assert(self.rows@.skip(i as int).skip(1) =~= self.rows@.skip(i as int + 1));
            }
            if self.rows[i].user == user {
                return Some(i);
            }
            i = i + 1;
        }
        proof {
            assert(self.rows@.skip(len as int) =~= Seq::<SettingsRow>::empty());
        }
        None
    }

    /// The user's stored model override, without consuming it.
    pub fn get_model_setting(&self, user: u64) -> (r: Option<String>)
        ensures
            r == self.spec_model(user),
    {
        match self.find_row(user) {
            Some(i) => match &self.rows[i].model {
                Some(m) => Some(m.clone()),
                None => None,
            },
            None => None,
        }
    }

    /// The user's stored sticky personality.
    pub fn get_user_personality(&self, user: u64) -> (r: Option<String>)
        ensures
            r == self.spec_personality(user),
    {
        match self.find_row(user) {
            Some(i) => match &self.rows[i].personality {
                Some(p) => Some(p.clone()),
                None => None,
            },
            None => None,
        }
    }

    /// Store (or clear) the user's model override; the sticky personality is
    /// untouched.
    pub fn set_model(&mut self, user: u64, model: Option<String>)
        requires
            old(self).wf(),
        ensures
            final(self).wf(),
            final(self).spec_model(user) == model,
            final(self).spec_personality(user) == old(self).spec_personality(user),
            forall|v: u64| v != user ==> final(self).row(v) == old(self).row(v),
    {
        match self.find_row(user) {
            Some(i) => {
                let personality = self.rows[i].personality.clone();
                let row = SettingsRow { user, model, personality };
                proof {
                    lemma_settings_update(self.rows@, i as int, row);
                    let upd = self.rows@.update(i as int, row);
                    assert forall|a: int, b: int| 0 <= a < b < upd.len() implies upd[a].user
                        != upd[b].user by {
                        assert(upd[a].user == self.rows@[a].user);
                        assert(upd[b].user == self.rows@[b].user);
                    }
                }
                self.rows[i] = row;
            },
            None => {
                let row = SettingsRow { user, model, personality: None };
                proof {
                    lemma_settings_find_props(self.rows@, user);
                    let p = self.rows@.push(row);
                    assert forall|a: int, b: int| 0 <= a < b < p.len() implies p[a].user
                        != p[b].user by {
                        if b == self.rows@.len() as int {
                            assert(p[a] == self.rows@[a]);
                        }
                    }
                }
                proof {
                    assert forall|v: u64| true implies spec_find_row(self.rows@.push(row), v)
                        == if v == user {
                        Some(row)
                    } else {
                        spec_find_row(self.rows@, v)
                    } by {
                        lemma_settings_push(self.rows@, row, v);
                    }
                }
                self.rows.push(row);
            },
        }
    }

    /// Store (or clear) the user's sticky personality; the model override is
    /// untouched.
    pub fn set_personality(&mut self, user: u64, personality: Option<String>)
        requires
            old(self).wf(),
        ensures
            final(self).wf(),
            final(self).spec_personality(user) == personality,
            final(self).spec_model(user) == old(self).spec_model(user),
            forall|v: u64| v != user ==> final(self).row(v) == old(self).row(v),
    {
        match self.find_row(user) {
            Some(i) => {
                let model = self.rows[i].model.clone();
                let row = SettingsRow { user, model, personality };
                proof {
                    lemma_settings_update(self.rows@, i as int, row);
                    let upd = self.rows@.update(i as int, row);
                    assert forall|a: int, b: int| 0 <= a < b < upd.len() implies upd[a].user
                        != upd[b].user by {
                        assert(upd[a].user == self.rows@[a].user);
                        assert(upd[b].user == self.rows@[b].user);
                    }
                }
                self.rows[i] = row;
            },
            None => {
                let row = SettingsRow { user, model: None, personality };
                proof {
                    lemma_settings_find_props(self.rows@, user);
                    let p = self.rows@.push(row);
                    assert forall|a: int, b: int| 0 <= a < b < p.len() implies p[a].user
                        != p[b].user by {
                        if b == self.rows@.len() as int {
                            assert(p[a] == self.rows@[a]);
                        }
                    }
                }
                proof {
                    assert forall|v: u64| true implies spec_find_row(self.rows@.push(row), v)
                        == if v == user {
                        Some(row)
                    } else {
                        spec_find_row(self.rows@, v)
                    } by {
                        lemma_settings_push(self.rows@, row, v);
                    }
                }
                self.rows.push(row);
            },
        }
    }

    /// Read and clear the user's one-shot model override in one step: the
    /// override is used up by the attempt that reads it, whether or not that
    /// attempt later succeeds.
    pub fn consume_model_setting(&mut self, user: u64) -> (r: Option<String>)
        requires
            old(self).wf(),
        ensures
            final(self).wf(),
            r == old(self).spec_model(user),
            final(self).spec_model(user) is None,
            final(self).spec_personality(user) == old(self).spec_personality(user),
            forall|v: u64| v != user ==> final(self).row(v) == old(self).row(v),
    {
        let setting = self.get_model_setting(user);
        if setting.is_some() {
            self.set_model(user, None);
        }
        setting
    }
}

/// Whether the member holds any of the allowed roles.
pub fn has_any_role(allowed: &Vec<u64>, member_roles: &Vec<u64>) -> (r: bool)
    ensures
        r == exists|i: int, j: int|
            0 <= i < allowed@.len() && 0 <= j < member_roles@.len() && allowed@[i]
                == member_roles@[j],
{
    let n = allowed.len();
    let mut i: usize = 0;
    while i < n
        invariant
            i <= n,
            n == allowed@.len(),
            forall|k: int, j: int|
                0 <= k < i && 0 <= j < member_roles@.len() ==> allowed@[k] != member_roles@[j],
        decreases n - i,
    {
        let m = member_roles.len();
        let mut j: usize = 0;
        while j < m
            invariant
                j <= m,
                i < n,
                m == member_roles@.len(),
                n == allowed@.len(),
                forall|k: int| 0 <= k < j ==> allowed@[i as int] != member_roles@[k],
            decreases m - j,
        {
            if allowed[i] == member_roles[j] {
                return true;
            }
            j = j + 1;
        }
        i = i + 1;
    }
    false
}

/// The reply when a model change is requested: how the chosen model is
/// described back to the user.
pub open spec fn spec_set_model_reply(model: crate::gpt::GptModel, already: bool) -> Seq<char> {
    if already {
        "Model was already set to "@ + model.spec_friendly_name() + " ("@
            + model.spec_cost_description() + ")."@
    } else {
        "Model for your future prompts set to "@ + model.spec_friendly_name() + " ("@
            + model.spec_cost_description() + ")."@
    }
}

/// Set the model to be used for the user's future prompts. Returns the reply
/// to show, or `None` (changing nothing) when no such model is configured.
/// Choosing the default model clears the stored override instead of storing
/// it.
pub fn set_model_decision(
    settings: &mut UserSettingsStore,
    gpt: &Gpt,
    user: u64,
    new_model_name: &str,
) -> (r: Option<String>)
    requires
        old(settings).wf(),
        gpt.wf(),
    ensures
        final(settings).wf(),
        ({
            let found = spec_find_model(gpt.spec_models() + gpt.spec_search_models(),
            new_model_name@);
            match r {
                Some(reply) => {
                    &&& found matches Some(model)
                    &&& ({
                        let current_name = match old(settings).spec_model(user) {
                            Some(m) => m@,
                            None => gpt.spec_models()[0].spec_name(),
                        };
                        if current_name == new_model_name@ {
                            &&& reply@ == spec_set_model_reply(model, true)
                            &&& *final(settings) == *old(settings)
                        } else {
                            &&& reply@ == spec_set_model_reply(model, false)
                            &&& (new_model_name@ == gpt.spec_models()[0].spec_name()
                                ==> final(settings).spec_model(user) is None)
                            &&& (new_model_name@ != gpt.spec_models()[0].spec_name()
                                ==> (final(settings).spec_model(user) matches Some(m)
                                && m@ == new_model_name@))
                            &&& final(settings).spec_personality(user)
                                == old(settings).spec_personality(user)
                            &&& forall|v: u64|
                                v != user ==> final(settings).row(v) == old(settings).row(v)
                        }
                    })
                },
                None => found is None && *final(settings) == *old(settings),
            }
        }),
{
    let new_model = match gpt.get_model_by_name(new_model_name) {
        Some(m) => m,
        None => {
            return None;
        },
    };
    let current = settings.get_model_setting(user);
    let same = match &current {
        Some(name) => str_eq(name.as_str(), new_model_name),
        None => str_eq(gpt.default_model().name(), new_model_name),
    };
    let mut reply = if same {
        String::from_str("Model was already set to ")
    } else {
        String::from_str("Model for your future prompts set to ")
    };
    reply.append(new_model.friendly_name());
    reply.append(" (");
    let description = new_model.get_cost_description();
    reply.append(description.as_str());
    reply.append(").");
    if !same {
        if str_eq(new_model_name, gpt.default_model().name()) {
            settings.set_model(user, None);
        } else {
            settings.set_model(user, Some(new_model_name.to_owned()));
        }
    }
    Some(reply)
}

/// Set (or reset) the personality used for the user's future new
/// conversations, and say what happened.
pub fn set_personality_decision(
    settings: &mut UserSettingsStore,
    user: u64,
    new_personality: Option<&str>,
) -> (r: String)
    requires
        old(settings).wf(),
    ensures
        final(settings).wf(),
        ({
            let same = match (old(settings).spec_personality(user), new_personality) {
                (Some(current), Some(new)) => current@ == new@,
                (None, None) => true,
                _ => false,
            };
            if same {
                &&& r@ == "The personality is already set to that."@
                &&& *final(settings) == *old(settings)
            } else {
                &&& (new_personality is None ==> final(settings).spec_personality(user)
                    is None)
                &&& (new_personality matches Some(name)
                    ==> (final(settings).spec_personality(user) matches Some(stored)
                    && stored@ == name@))
                &&& final(settings).spec_model(user) == old(settings).spec_model(user)
                &&& forall|v: u64| v != user ==> final(settings).row(v) == old(settings).row(v)
                &&& r@ == match new_personality {
                    Some(name) => "Personality for future new conversations set to "@ + name@
                        + "."@,
                    None => "Personality for future new conversations reset to default."@,
                }
            }
        }),
{
    let current = settings.get_user_personality(user);
    let same = match (&current, &new_personality) {
        (Some(c), Some(n)) => str_eq(c.as_str(), n),
        (None, None) => true,
        _ => false,
    };
    if same {
        return String::from_str("The personality is already set to that.");
    }
    match new_personality {
        Some(name) => {
            settings.set_personality(user, Some(name.to_owned()));
            let mut reply = String::from_str("Personality for future new conversations set to ");
            reply.append(name);
            reply.append(".");
            reply
        },
        None => {
            settings.set_personality(user, None);
            String::from_str("Personality for future new conversations reset to default.")
        },
    }
}

/// Store an arbitrary system message as the user's sticky personality, in
/// the reserved `custom(...)` form that `get_personality_by_name` decodes.
pub fn set_custom_personality(settings: &mut UserSettingsStore, user: u64, system_message: &str)
    requires
        old(settings).wf(),
    ensures
        final(settings).wf(),
        final(settings).spec_personality(user) matches Some(stored) && stored@ == wrapped_custom(
            system_message@,
        ),
        final(settings).spec_model(user) == old(settings).spec_model(user),
        forall|v: u64| v != user ==> final(settings).row(v) == old(settings).row(v),
{
    let wrapped = wrap_custom(system_message);
    settings.set_personality(user, Some(wrapped));
}

} // verus!
