//! The forms through which projects and apps are added: what they hold while
//! being edited, when they may be confirmed, and what they turn into.

use vstd::prelude::*;
use vstd::string::*;
use crate::config::{App, Config, Project, env_keys, env_lookup, env_view, opt_view, project_ids, upsert};
use crate::lookup::{first_index, lemma_first_index, lemma_first_index_at, lemma_first_index_none};
use crate::text::{
    no_ws, split_whitespace, str_eq, string_views, trim, trim_is_idempotent, trim_str, words,
    words_are_nonempty_and_unspaced,
};
use crate::trusted::{is_v4_id, random_id};

verus! {

/// One environment variable row of the app form.
#[derive(Debug, Clone, PartialEq)]
pub struct EnvRow {
    pub id: u128,
    pub key: String,
    pub value: String,
}

/// The fields of the "Add App" form.
#[derive(Debug, Clone, PartialEq)]
pub struct AppForm {
    pub name: String,
    pub description: String,
    pub icon: String,
    pub command: String,
    pub working_dir: String,
    /// Arguments, separated by whitespace.
    pub args: String,
    pub env_vars: Vec<EnvRow>,
    pub confirm: bool,
}

/// The fields of the "Add Project" form.
#[derive(Debug, Clone, PartialEq)]
pub struct ProjectForm {
    pub name: String,
    pub description: String,
    pub icon_path: String,
    pub color: String,
}

/// The rows of the form as key/value texts.
pub open spec fn rows_view(rows: Seq<EnvRow>) -> Seq<(Seq<char>, Seq<char>)> {
    rows.map_values(|r: EnvRow| (r.key@, r.value@))
}

/// The environment that rows make: rows are taken in order, each with its
/// key and value trimmed; a row whose key is blank is left out, and a later
/// row with the same key overrides the value of an earlier one.
pub open spec fn env_of_rows(rows: Seq<(Seq<char>, Seq<char>)>) -> Seq<(Seq<char>, Seq<char>)>
    decreases rows.len(),
{
    if rows.len() == 0 {
        Seq::empty()
    } else {
        let prev = env_of_rows(rows.drop_last());
        let key = trim(rows.last().0);
        if key.len() == 0 {
            prev
        } else {
            upsert(prev, key, trim(rows.last().1))
        }
    }
}

/// The trimmed value of the last row whose trimmed key is `key`.
pub open spec fn last_value_for(rows: Seq<(Seq<char>, Seq<char>)>, key: Seq<char>) -> Option<
    Seq<char>,
>
    decreases rows.len(),
{
    if rows.len() == 0 {
        None
    } else if key.len() > 0 && trim(rows.last().0) == key {
        Some(trim(rows.last().1))
    } else {
        last_value_for(rows.drop_last(), key)
    }
}

/// An optional field of a form: absent when left empty, else kept as typed.
pub open spec fn optional_field(s: String) -> Option<String> {
    if s@.len() == 0 {
        None
    } else {
        Some(s)
    }
}

/// Whether `app` is what the form `f` makes, but for the fresh id.
pub open spec fn app_from_form(f: AppForm, app: App) -> bool {
    &&& is_v4_id(app.id)
    &&& app.name@ == trim(f.name@)
    &&& app.description@ == trim(f.description@)
    &&& app.icon == optional_field(f.icon)
    &&& app.command@ == trim(f.command@)
    &&& string_views(app.args@) == words(f.args@)
    &&& env_view(app.env@) == env_of_rows(rows_view(f.env_vars@))
    &&& app.cwd == optional_field(f.working_dir)
    &&& app.confirm == f.confirm
    &&& app.icon_data is None
}

/// Whether `p` is what the form `f` makes, but for the fresh id.
pub open spec fn project_from_form(f: ProjectForm, p: Project) -> bool {
    &&& is_v4_id(p.id)
    &&& p.name@ == trim(f.name@)
    &&& opt_view(p.description) == Some(trim(f.description@))
    &&& p.icon == optional_field(f.icon_path)
    &&& p.color == optional_field(f.color)
    &&& p.apps@.len() == 0
    &&& p.icon_data is None
}

impl EnvRow {
    /// A blank row with a fresh id.
    pub fn new() -> (r: EnvRow)
        ensures
            is_v4_id(r.id),
            r.key@.len() == 0,
            r.value@.len() == 0,
    {
        EnvRow { id: random_id(), key: String::new(), value: String::new() }
    }
}

impl Default for AppForm {
    /// A blank form: every text empty, no rows, no confirmation asked.
    fn default() -> (r: AppForm)
        ensures
            r.name@.len() == 0,
            r.description@.len() == 0,
            r.icon@.len() == 0,
            r.command@.len() == 0,
            r.working_dir@.len() == 0,
            r.args@.len() == 0,
            r.env_vars@.len() == 0,
            !r.confirm,
    {
        AppForm {
            name: String::new(),
            description: String::new(),
            icon: String::new(),
            command: String::new(),
            working_dir: String::new(),
            args: String::new(),
            env_vars: Vec::new(),
            confirm: false,
        }
    }
}

/// `s` when not empty, else nothing.
fn non_empty(s: String) -> (r: Option<String>)
    ensures
        r == optional_field(s),
{
    if s.as_str().is_empty() {
        None
    } else {
        Some(s)
    }
}

/// Sets `key` to `value` in `env`: in place where the key is present, else at the end.
fn upsert_env(env: &mut Vec<(String, String)>, key: String, value: String)
    ensures
        env_view(final(env)@) == upsert(env_view(old(env)@), key@, value@),
{
    let ghost keys = env_keys(env_view(env@));
    let n = env.len();
    let mut j: usize = 0;
    while j < n
        invariant
            j <= n,
            n == env@.len(),
            env@ == old(env)@,
            keys == env_keys(env_view(env@)),
            forall|m: int| 0 <= m < j ==> keys[m] != key@,
        decreases n - j,
    {
        if str_eq(env[j].0.as_str(), key.as_str()) {
            proof {
                lemma_first_index_at(keys, key@, j as int);
            }
            let ghost kv = key@;
            let ghost vv = value@;
            env.set(j, (key, value));
            assert(env_view(env@) =~= env_view(old(env)@).update(j as int, (kv, vv)));
            return ;
        }
        j = j + 1;
    }
    proof {
        lemma_first_index_none(keys, key@);
    }
    let ghost kv = key@;
    let ghost vv = value@;
    env.push((key, value));
    assert(env_view(env@) =~= env_view(old(env)@).push((kv, vv)));
}

impl AppForm {
    /// A form can be confirmed when its name and its command are not blank.
    pub fn is_valid(&self) -> (r: bool)
        ensures
            r == (trim(self.name@).len() > 0 && trim(self.command@).len() > 0),
    {
        !trim_str(self.name.as_str()).as_str().is_empty() && !trim_str(
            self.command.as_str(),
        ).as_str().is_empty()
    }

    /// The app the form describes, with a fresh id: name, description and
    /// command trimmed; icon and working directory absent when empty;
    /// arguments split at whitespace; environment made of the rows.
    pub fn into_app(self) -> (app: App)
        ensures
            app_from_form(self, app),
    {
        let ghost rows = rows_view(self.env_vars@);
        let mut env: Vec<(String, String)> = Vec::new();
        let n = self.env_vars.len();
        assert(rows.take(0) =~= Seq::<(Seq<char>, Seq<char>)>::empty());
        for i in 0..n
            invariant
                n == self.env_vars@.len(),
                rows == rows_view(self.env_vars@),
                env_view(env@) == env_of_rows(rows.take(i as int)),
        {
            assert(rows.take(i + 1).drop_last() =~= rows.take(i as int));
            let key = trim_str(self.env_vars[i].key.as_str());
            if !key.as_str().is_empty() {
                let value = trim_str(self.env_vars[i].value.as_str());
                upsert_env(&mut env, key, value);
            }
        }
        assert(rows.take(n as int) =~= rows);
        let args = split_whitespace(self.args.as_str());
        App {
            id: random_id(),
            name: trim_str(self.name.as_str()),
            description: trim_str(self.description.as_str()),
            icon: non_empty(self.icon),
            command: trim_str(self.command.as_str()),
            args,
            env,
            cwd: non_empty(self.working_dir),
            confirm: self.confirm,
            icon_data: None,
        }
    }
}


impl AppForm {
    /// Appends a blank row with a fresh id.
    pub fn add_env_row(&mut self)
        ensures
            *final(self) == (AppForm { env_vars: final(self).env_vars, ..*old(self) }),
            final(self).env_vars@.len() == old(self).env_vars@.len() + 1,
            final(self).env_vars@.drop_last() == old(self).env_vars@,
            is_v4_id(final(self).env_vars@.last().id),
            final(self).env_vars@.last().key@.len() == 0,
            final(self).env_vars@.last().value@.len() == 0,
    {
        self.env_vars.push(EnvRow::new());
        assert(self.env_vars@.drop_last() =~= old(self).env_vars@);
    }

    /// Sets the key of the `i`-th row.
    pub fn set_env_key(&mut self, i: usize, key: String)
        requires
            i < old(self).env_vars@.len(),
        ensures
            *final(self) == (AppForm { env_vars: final(self).env_vars, ..*old(self) }),
            final(self).env_vars@ == old(self).env_vars@.update(
                i as int,
                EnvRow { key: key, ..old(self).env_vars@[i as int] },
            ),
    {
        let mut row = self.env_vars.remove(i);
        row.key = key;
        self.env_vars.insert(i, row);
        assert(self.env_vars@ =~= old(self).env_vars@.update(
            i as int,
            EnvRow { key: key, ..old(self).env_vars@[i as int] },
        ));
    }

    /// Sets the value of the `i`-th row.
    pub fn set_env_value(&mut self, i: usize, value: String)
        requires
            i < old(self).env_vars@.len(),
        ensures
            *final(self) == (AppForm { env_vars: final(self).env_vars, ..*old(self) }),
            final(self).env_vars@ == old(self).env_vars@.update(
                i as int,
                EnvRow { value: value, ..old(self).env_vars@[i as int] },
            ),
    {
        let mut row = self.env_vars.remove(i);
        row.value = value;
        self.env_vars.insert(i, row);
        assert(self.env_vars@ =~= old(self).env_vars@.update(
            i as int,
            EnvRow { value: value, ..old(self).env_vars@[i as int] },
        ));
    }

    /// Removes the `i`-th row.
    pub fn remove_env_row(&mut self, i: usize)
        requires
            i < old(self).env_vars@.len(),
        ensures
            *final(self) == (AppForm { env_vars: final(self).env_vars, ..*old(self) }),
            final(self).env_vars@ == old(self).env_vars@.remove(i as int),
    {
        self.env_vars.remove(i);
    }

    /// Confirming the form: when it is valid, the app it describes is added
    /// to the first project with id `project_id` (to none, where there is no
    /// such project) and the name as typed is returned; otherwise nothing
    /// changes and `None` is returned.
    pub fn confirm(self, config: &mut Config, project_id: u128) -> (saved: Option<String>)
        ensures
            if trim(self.name@).len() > 0 && trim(self.command@).len() > 0 {
                &&& saved == Some(self.name)
                &&& match first_index(project_ids(old(config).projects@), project_id) {
                    Some(i) => {
                        &&& final(config).projects@.len() == old(config).projects@.len()
                        &&& forall|k: int|
                            0 <= k < old(config).projects@.len() && k != i
                                ==> #[trigger] final(config).projects@[k]
                                == old(config).projects@[k]
                        &&& final(config).projects@[i] == Project {
                            apps: final(config).projects@[i].apps,
                            ..old(config).projects@[i]
                        }
                        &&& final(config).projects@[i].apps@.len() == old(
                            config,
                        ).projects@[i].apps@.len() + 1
                        &&& final(config).projects@[i].apps@.drop_last() == old(
                            config,
                        ).projects@[i].apps@
                        &&& app_from_form(self, final(config).projects@[i].apps@.last())
                    },
                    None => final(config).projects@ == old(config).projects@,
                }
            } else {
                &&& saved is None
                &&& final(config).projects@ == old(config).projects@
            },
    {
        if !self.is_valid() {
            return None;
        }
        let name = self.name.clone();
        let app = self.into_app();
        config.add_app(project_id, app);
        proof {
            match first_index(project_ids(old(config).projects@), project_id) {
                Some(i) => {
                    assert(config.projects@[i].apps@.drop_last() =~= old(config).projects@[i].apps@);
                },
                None => {},
            }
        }
        Some(name)
    }
}

impl Default for ProjectForm {
    /// A blank form.
    fn default() -> (r: ProjectForm)
        ensures
            r.name@.len() == 0,
            r.description@.len() == 0,
            r.icon_path@.len() == 0,
            r.color@.len() == 0,
    {
        ProjectForm {
            name: String::new(),
            description: String::new(),
            icon_path: String::new(),
            color: String::new(),
        }
    }
}

impl ProjectForm {
    /// A form can be confirmed when its name is not blank.
    pub fn is_valid(&self) -> (r: bool)
        ensures
            r == (trim(self.name@).len() > 0),
    {
        !trim_str(self.name.as_str()).as_str().is_empty()
    }

    /// The project the form describes, with a fresh id and no apps: name and
    /// description trimmed (the description always present), icon and colour
    /// absent when empty.
    pub fn into_project(self) -> (p: Project)
        ensures
            project_from_form(self, p),
    {
        Project {
            id: random_id(),
            name: trim_str(self.name.as_str()),
            description: Some(trim_str(self.description.as_str())),
            icon: non_empty(self.icon_path),
            icon_data: None,
            color: non_empty(self.color),
            apps: Vec::new(),
        }
    }

    /// The colour the colour inputs show: the chosen one, or the default blue.
    pub fn color_value(&self) -> (r: String)
        ensures
            r@ == (if self.color@.len() == 0 {
                "#3b82f6"@
            } else {
                self.color@
            }),
    {
        if self.color.as_str().is_empty() {
            String::from_str("#3b82f6")
        } else {
            self.color.clone()
        }
    }

    /// Confirming the form: when it is valid, the project it describes is
    /// added at the end and the name as typed is returned; otherwise nothing
    /// changes and `None` is returned.
    pub fn confirm(self, config: &mut Config) -> (saved: Option<String>)
        ensures
            if trim(self.name@).len() > 0 {
                &&& saved == Some(self.name)
                &&& final(config).projects@.len() == old(config).projects@.len() + 1
                &&& final(config).projects@.drop_last() == old(config).projects@
                &&& project_from_form(self, final(config).projects@.last())
            } else {
                &&& saved is None
                &&& final(config).projects@ == old(config).projects@
            },
    {
        if !self.is_valid() {
            return None;
        }
        let name = self.name.clone();
        let project = self.into_project();
        config.projects.push(project);
        assert(config.projects@.drop_last() =~= old(config).projects@);
        Some(name)
    }
}

/// Setting `key` gives it `value`, and leaves every other key as it was.
proof fn lemma_upsert_lookup(env: Seq<(Seq<char>, Seq<char>)>, key: Seq<char>, value: Seq<char>)
    ensures
        env_lookup(upsert(env, key, value), key) == Some(value),
        forall|other: Seq<char>|
            other != key ==> #[trigger] env_lookup(upsert(env, key, value), other) == env_lookup(
                env,
                other,
            ),
        env_keys(env).no_duplicates() ==> env_keys(upsert(env, key, value)).no_duplicates(),
        forall|k: Seq<char>|
            #[trigger] env_keys(upsert(env, key, value)).contains(k) ==> k == key || env_keys(
                env,
            ).contains(k),
{
    let keys = env_keys(env);
    let new_env = upsert(env, key, value);
    let new_keys = env_keys(new_env);
    lemma_first_index(keys, key);
    match first_index(keys, key) {
        Some(i) => {
            assert(new_keys =~= keys);
            assert forall|other: Seq<char>| other != key implies #[trigger] env_lookup(
                new_env,
                other,
            ) == env_lookup(env, other) by {
                lemma_first_index(keys, other);
            }
        },
        None => {
            assert(new_keys =~= keys.push(key));
            lemma_first_index_at(new_keys, key, keys.len() as int);
            assert forall|other: Seq<char>| other != key implies #[trigger] env_lookup(
                new_env,
                other,
            ) == env_lookup(env, other) by {
                lemma_first_index(keys, other);
                match first_index(keys, other) {
                    Some(j) => {
                        lemma_first_index_at(new_keys, other, j);
                    },
                    None => {
                        lemma_first_index_none(new_keys, other);
                    },
                }
            }
            assert forall|k: Seq<char>| #[trigger] new_keys.contains(k) implies k == key
                || keys.contains(k) by {
                let m = choose|m: int| 0 <= m < new_keys.len() && new_keys[m] == k;
                if m < keys.len() {
                    assert(keys[m] == k);
                }
            }
            if keys.no_duplicates() {
                assert forall|a: int, b: int|
                    0 <= a < new_keys.len() && 0 <= b < new_keys.len() && a != b implies new_keys[a]
                    != new_keys[b] by {
                    if a == keys.len() {
                        assert(keys[b] != key);
                    } else if b == keys.len() {
                        assert(keys[a] != key);
                    }
                }
            }
        },
    }
}

/// Law: in the environment that rows make, each key has the value of the
/// last row that names it (keys and values trimmed, blank keys ignored).
pub proof fn env_takes_last_row_for_each_key(rows: Seq<(Seq<char>, Seq<char>)>, key: Seq<char>)
    ensures
        env_lookup(env_of_rows(rows), key) == last_value_for(rows, key),
    decreases rows.len(),
{
    if rows.len() == 0 {
        lemma_first_index_none(env_keys(env_of_rows(rows)), key);
    } else {
        let prev = rows.drop_last();
        env_takes_last_row_for_each_key(prev, key);
        let k = trim(rows.last().0);
        if k.len() > 0 {
            lemma_upsert_lookup(env_of_rows(prev), k, trim(rows.last().1));
        }
    }
}

/// Law: the environment that rows make names no key twice, and its keys are
/// neither blank nor padded with whitespace.
pub proof fn env_keys_are_distinct_and_trimmed(rows: Seq<(Seq<char>, Seq<char>)>)
    ensures
        env_keys(env_of_rows(rows)).no_duplicates(),
        forall|k: Seq<char>|
            #[trigger] env_keys(env_of_rows(rows)).contains(k) ==> k.len() > 0 && trim(k) == k,
    decreases rows.len(),
{
    if rows.len() > 0 {
        let prev = rows.drop_last();
        env_keys_are_distinct_and_trimmed(prev);
        let k = trim(rows.last().0);
        if k.len() > 0 {
            lemma_upsert_lookup(env_of_rows(prev), k, trim(rows.last().1));
            trim_is_idempotent(rows.last().0);
        }
    }
}


/// Whether an app is in the shape the form gives apps: name and command
/// trimmed; every argument a non-empty word without whitespace; no
/// environment key twice, and none blank or padded with whitespace.
pub open spec fn well_formed_app(app: App) -> bool {
    &&& trim(app.name@) == app.name@
    &&& trim(app.command@) == app.command@
    &&& forall|k: int|
        0 <= k < app.args@.len() ==> (#[trigger] app.args@[k])@.len() > 0 && no_ws(app.args@[k]@)
    &&& env_keys(env_view(app.env@)).no_duplicates()
    &&& forall|key: Seq<char>|
        #[trigger] env_keys(env_view(app.env@)).contains(key) ==> key.len() > 0 && trim(key) == key
}

/// Law: every app made from the form is well formed, and one made from a
/// valid form has a name and a command that are not empty.
pub proof fn apps_from_forms_are_well_formed(f: AppForm, app: App)
    requires
        app_from_form(f, app),
    ensures
        well_formed_app(app),
        trim(f.name@).len() > 0 && trim(f.command@).len() > 0 ==> app.name@.len() > 0
            && app.command@.len() > 0,
{
    trim_is_idempotent(f.name@);
    trim_is_idempotent(f.command@);
    words_are_nonempty_and_unspaced(f.args@);
    assert forall|k: int| 0 <= k < app.args@.len() implies (#[trigger] app.args@[k])@.len() > 0
        && no_ws(app.args@[k]@) by {
        assert(string_views(app.args@)[k] == app.args@[k]@);
    }
    env_keys_are_distinct_and_trimmed(rows_view(f.env_vars@));
}

/// Law: an optional field of a form is left out exactly when it is empty;
/// otherwise it is kept as typed, untrimmed.
pub proof fn optional_fields_drop_only_empty_text(s: String)
    ensures
        optional_field(s) is None <==> s@.len() == 0,
        s@.len() > 0 ==> optional_field(s) == Some(s),
{
}

/// Law: the app a form makes keeps a non-empty icon and working directory as
/// typed, and has none only where the field was empty.
pub proof fn apps_keep_their_icon_and_directory(f: AppForm, app: App)
    requires
        app_from_form(f, app),
    ensures
        f.icon@.len() > 0 ==> app.icon == Some(f.icon),
        f.icon@.len() == 0 ==> app.icon is None,
        f.working_dir@.len() > 0 ==> app.cwd == Some(f.working_dir),
        f.working_dir@.len() == 0 ==> app.cwd is None,
{
}

/// Law: the project a form makes keeps a non-empty icon path and colour as
/// typed, and has none only where the field was empty.
pub proof fn projects_keep_their_icon_and_colour(f: ProjectForm, p: Project)
    requires
        project_from_form(f, p),
    ensures
        f.icon_path@.len() > 0 ==> p.icon == Some(f.icon_path),
        f.icon_path@.len() == 0 ==> p.icon is None,
        f.color@.len() > 0 ==> p.color == Some(f.color),
        f.color@.len() == 0 ==> p.color is None,
{
}

/// Law: the value the rows give a key comes from the last row whose trimmed
/// key it is, trimmed; a blank key gets none, and a key no row names gets none.
pub proof fn last_value_for_is_the_last_row(rows: Seq<(Seq<char>, Seq<char>)>, key: Seq<char>)
    ensures
        key.len() == 0 ==> last_value_for(rows, key) is None,
        last_value_for(rows, key) is None <==> (key.len() == 0 || forall|i: int|
            0 <= i < rows.len() ==> trim(#[trigger] rows[i].0) != key),
        last_value_for(rows, key) matches Some(v) ==> exists|i: int|
            0 <= i < rows.len() && trim(#[trigger] rows[i].0) == key && v == trim(rows[i].1) && forall|
                j: int,
            |
                i < j < rows.len() ==> trim(#[trigger] rows[j].0) != key,
    decreases rows.len(),
{
    if rows.len() > 0 {
        let init = rows.drop_last();
        last_value_for_is_the_last_row(init, key);
        let n = rows.len() - 1;
        if key.len() > 0 && trim(rows.last().0) == key {
            assert(trim(rows[n].0) == key);
        } else {
            assert forall|i: int| 0 <= i < init.len() implies init[i] == rows[i] by {}
            if last_value_for(init, key) is None && key.len() > 0 {
                assert forall|i: int| 0 <= i < rows.len() implies trim(#[trigger] rows[i].0) != key by {
                    if i < n {
                        assert(init[i] == rows[i]);
                    }
                }
            }
            if last_value_for(rows, key) is None && key.len() > 0 {
                assert forall|i: int| 0 <= i < init.len() implies trim(#[trigger] init[i].0) != key by {
                    assert(init[i] == rows[i]);
                }
            }
            match last_value_for(init, key) {
                Some(v) => {
                    let i = choose|i: int|
                        0 <= i < init.len() && trim(#[trigger] init[i].0) == key && v == trim(
                            init[i].1,
                        ) && forall|j: int| i < j < init.len() ==> trim(#[trigger] init[j].0) != key;
                    assert(rows[i] == init[i]);
                    assert forall|j: int| i < j < rows.len() implies trim(#[trigger] rows[j].0) != key by {
                        if j < n {
                            assert(rows[j] == init[j]);
                        }
                    }
                },
                None => {},
            }
        }
    }
}

} // verus!
