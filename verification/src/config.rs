//! The saved configuration: projects, the apps in each, and the icon data
//! derived from icon files when the configuration is loaded.

use vstd::prelude::*;
use vstd::string::*;
use crate::lookup::{first_index, lemma_first_index_at, lemma_first_index_none};
use crate::text::{contains_char, str_eq};
use crate::trusted::{base64_encode, base64_standard, path_extension, path_extension_of};

verus! {

/// Everything the launcher keeps between runs.
#[derive(Debug, Clone, PartialEq)]
pub struct Config {
    pub projects: Vec<Project>,
}

/// A named group of apps.
#[derive(Debug, Clone, PartialEq)]
pub struct Project {
    pub id: u128,
    pub name: String,
    pub description: Option<String>,
    pub color: Option<String>,
    pub icon: Option<String>,
    pub apps: Vec<App>,
    /// A `data:` URL of the icon file, derived when loading; never saved.
    pub icon_data: Option<String>,
}

/// A command that can be launched, with its arguments, environment and
/// working directory.
#[derive(Debug, Clone, PartialEq)]
pub struct App {
    pub id: u128,
    pub name: String,
    pub description: String,
    pub icon: Option<String>,
    pub command: String,
    pub args: Vec<String>,
    /// Environment variables as key/value pairs. The form makes no key occur
    /// twice (`forms::well_formed_app`); a loaded file cannot hold a key twice.
    pub env: Vec<(String, String)>,
    pub cwd: Option<String>,
    pub confirm: bool,
    /// A `data:` URL of the icon file, derived when loading; never saved.
    pub icon_data: Option<String>,
}

/// The text of an optional string.
pub open spec fn opt_view(o: Option<String>) -> Option<Seq<char>> {
    match o {
        Some(s) => Some(s@),
        None => None,
    }
}

/// An environment as key/value texts.
pub open spec fn env_view(env: Seq<(String, String)>) -> Seq<(Seq<char>, Seq<char>)> {
    env.map_values(|p: (String, String)| (p.0@, p.1@))
}

/// The keys of an environment, in order.
pub open spec fn env_keys(env: Seq<(Seq<char>, Seq<char>)>) -> Seq<Seq<char>> {
    env.map_values(|p: (Seq<char>, Seq<char>)| p.0)
}

/// The value of `key` in `env`, if it has one.
pub open spec fn env_lookup(env: Seq<(Seq<char>, Seq<char>)>, key: Seq<char>) -> Option<Seq<char>> {
    match first_index(env_keys(env), key) {
        Some(i) => Some(env[i].1),
        None => None,
    }
}

/// `env` with `key` set to `value`: in place where `key` is already there,
/// else at the end.
pub open spec fn upsert(env: Seq<(Seq<char>, Seq<char>)>, key: Seq<char>, value: Seq<char>) -> Seq<
    (Seq<char>, Seq<char>),
> {
    match first_index(env_keys(env), key) {
        Some(i) => env.update(i, (key, value)),
        None => env.push((key, value)),
    }
}

/// The ids of a sequence of projects.
pub open spec fn project_ids(ps: Seq<Project>) -> Seq<u128> {
    ps.map_values(|p: Project| p.id)
}

/// The accent colour used when a project has none.
pub open spec fn default_accent() -> Seq<char> {
    "#3b82f6"@
}

/// The MIME type announced for an icon with extension `ext`.
pub open spec fn mime_for_extension(ext: Seq<char>) -> Seq<char> {
    if ext == "svg"@ {
        "image/svg+xml"@
    } else if ext == "jpg"@ || ext == "jpeg"@ {
        "image/jpeg"@
    } else if ext == "webp"@ {
        "image/webp"@
    } else {
        "image/png"@
    }
}

/// The MIME type announced for the icon file at `path`; a path without an
/// extension counts as a `png`.
pub open spec fn mime_for_path(path: Seq<char>) -> Seq<char> {
    match path_extension_of(path) {
        Some(ext) => mime_for_extension(ext),
        None => "image/png"@,
    }
}

/// The `data:` URL of an icon file at `path` with contents `bytes`.
pub open spec fn icon_data_url(path: Seq<char>, bytes: Seq<u8>) -> Seq<char> {
    "data:"@ + mime_for_path(path) + ";base64,"@ + base64_standard(bytes)
}

/// Whether `bytes` can be encoded without the encoded length overflowing.
pub open spec fn encodable(bytes: Seq<u8>) -> bool {
    4 * ((bytes.len() + 2) / 3) <= usize::MAX
}

/// Whether `len` bytes can be encoded in base64 without the encoded length
/// overflowing `usize` (the encoder panics where it would).
pub fn encodable_len(len: usize) -> (r: bool)
    ensures
        r == (4 * ((len + 2) / 3) <= usize::MAX),
{
    let groups: usize = len / 3 + if len % 3 == 0 {
        0
    } else {
        1
    };
    assert(groups == (len + 2) / 3);
    groups <= usize::MAX / 4
}

/// The icon data of an icon file at `path`, given what reading it gave.
pub open spec fn icon_data_of(path: Seq<char>, bytes: Option<Seq<u8>>) -> Option<Seq<char>> {
    match bytes {
        Some(b) => Some(icon_data_url(path, b)),
        None => None,
    }
}

/// The icon file that an icon names: the icon itself, when it holds a `.`
/// (a path rather than an emoji).
pub open spec fn icon_file_for(icon: Option<String>) -> Option<Seq<char>> {
    match icon {
        Some(i) => if i@.contains('.') {
            Some(i@)
        } else {
            None
        },
        None => None,
    }
}

/// The icon file of a project.
pub open spec fn icon_file_of(p: Project) -> Option<Seq<char>> {
    icon_file_for(p.icon)
}

/// The icon file of an app.
pub open spec fn app_icon_file_of(a: App) -> Option<Seq<char>> {
    icon_file_for(a.icon)
}

/// What reading the `i`-th icon file gave, absent entries counting as a failed read.
pub open spec fn read_at(reads: Seq<Option<Vec<u8>>>, i: int) -> Option<Seq<u8>> {
    if 0 <= i < reads.len() {
        match reads[i] {
            Some(b) => Some(b@),
            None => None,
        }
    } else {
        None
    }
}

/// What reading the icon file of the `i`-th project gave.
pub open spec fn project_read(reads: Seq<IconReads>, i: int) -> Option<Seq<u8>> {
    if 0 <= i < reads.len() {
        match reads[i].project {
            Some(b) => Some(b@),
            None => None,
        }
    } else {
        None
    }
}

/// What reading the icon file of the `j`-th app of the `i`-th project gave.
pub open spec fn app_read(reads: Seq<IconReads>, i: int, j: int) -> Option<Seq<u8>> {
    if 0 <= i < reads.len() {
        read_at(reads[i].apps@, j)
    } else {
        None
    }
}

/// Whether every file read can be encoded.
pub open spec fn reads_encodable(reads: Seq<IconReads>) -> bool {
    forall|i: int|
        0 <= i < reads.len() ==> {
            &&& (#[trigger] reads[i]).project matches Some(b) ==> encodable(b@)
            &&& forall|j: int|
                0 <= j < reads[i].apps@.len() ==> (#[trigger] reads[i].apps@[j] matches Some(b)
                    ==> encodable(b@))
        }
}

/// Whether every file read in `reads` can be encoded.
pub open spec fn app_reads_encodable(reads: Seq<Option<Vec<u8>>>) -> bool {
    forall|j: int| 0 <= j < reads.len() ==> (#[trigger] reads[j] matches Some(b) ==> encodable(b@))
}

/// `b` is the app `a` after loading: icon data derived from its icon file
/// where it has one; nothing else changes.
pub open spec fn loaded_app(a: App, b: App, read: Option<Seq<u8>>) -> bool {
    &&& b == App { icon_data: b.icon_data, ..a }
    &&& match app_icon_file_of(a) {
        Some(path) => opt_view(b.icon_data) == icon_data_of(path, read),
        None => b.icon_data == a.icon_data,
    }
}

/// `q` is the project `p` after loading: icon data derived from its icon file
/// where it has one, and each app loaded likewise (its file read given by
/// `app_reads`); nothing else changes.
pub open spec fn loaded_project(
    p: Project,
    q: Project,
    read: Option<Seq<u8>>,
    app_reads: spec_fn(int) -> Option<Seq<u8>>,
) -> bool {
    &&& q == Project { icon_data: q.icon_data, apps: q.apps, ..p }
    &&& match icon_file_of(p) {
        Some(path) => opt_view(q.icon_data) == icon_data_of(path, read),
        None => q.icon_data == p.icon_data,
    }
    &&& q.apps@.len() == p.apps@.len()
    &&& forall|j: int|
        0 <= j < p.apps@.len() ==> loaded_app(#[trigger] p.apps@[j], q.apps@[j], app_reads(j))
}

/// The MIME type for an icon with extension `ext`; without one, a `png`.
pub fn mime_type_for_extension(ext: Option<&str>) -> (r: &'static str)
    ensures
        r@ == match ext {
            Some(e) => mime_for_extension(e@),
            None => "image/png"@,
        },
{
    match ext {
        Some(e) => {
            if str_eq(e, "svg") {
                "image/svg+xml"
            } else if str_eq(e, "jpg") || str_eq(e, "jpeg") {
                "image/jpeg"
            } else if str_eq(e, "webp") {
                "image/webp"
            } else {
                "image/png"
            }
        },
        None => "image/png",
    }
}

/// The MIME type for the icon file at `path`.
pub fn mime_type_for(path: &str) -> (r: &'static str)
    ensures
        r@ == mime_for_path(path@),
{
    match path_extension(path) {
        Some(ext) => mime_type_for_extension(Some(ext.as_str())),
        None => mime_type_for_extension(None),
    }
}

/// A `data:` URL announcing `mime` with the base64 text `encoded`.
pub fn data_url(mime: &str, encoded: &str) -> (r: String)
    ensures
        r@ == "data:"@ + mime@ + ";base64,"@ + encoded@,
{
    let mut url = String::from_str("data:");
    url.append(mime);
    url.append(";base64,");
    url.append(encoded);
    url
}

/// The icon files of a project and of its apps, in the order of its apps.
#[derive(Debug, Clone, PartialEq)]
pub struct IconFiles {
    pub project: Option<String>,
    pub apps: Vec<Option<String>>,
}

/// What reading the icon files of a project and of its apps gave (`None`
/// for a file that could not be read), in the order of `IconFiles`.
#[derive(Debug, Clone, PartialEq)]
pub struct IconReads {
    pub project: Option<Vec<u8>>,
    pub apps: Vec<Option<Vec<u8>>>,
}

/// The icon file that `icon` names, if it names one.
pub fn icon_file(icon: &Option<String>) -> (r: Option<String>)
    ensures
        opt_view(r) == icon_file_for(*icon),
{
    match icon {
        Some(i) => if contains_char(i.as_str(), '.') {
            Some(i.clone())
        } else {
            None
        },
        None => None,
    }
}

/// The apps with their icon data loaded, the `j`-th app's file read giving `reads[j]`.
fn load_apps(apps: Vec<App>, reads: &Vec<Option<Vec<u8>>>) -> (r: Vec<App>)
    requires
        app_reads_encodable(reads@),
    ensures
        r@.len() == apps@.len(),
        forall|j: int| 0 <= j < apps@.len() ==> loaded_app(#[trigger] apps@[j], r@[j], read_at(reads@, j)),
{
    let mut apps = apps;
    let ghost orig = apps@;
    let m = apps.len();
    for j in 0..m
        invariant
            m == apps@.len(),
            m == orig.len(),
            app_reads_encodable(reads@),
            forall|l: int| 0 <= l < j ==> loaded_app(#[trigger] orig[l], apps@[l], read_at(reads@, l)),
            forall|l: int| j <= l < m ==> #[trigger] apps@[l] == orig[l],
    {
        let mut a = apps.remove(j);
        match icon_file(&a.icon) {
            Some(path) => {
                let data = if j < reads.len() {
                    Config::load_icon_as_base64(path.as_str(), &reads[j])
                } else {
                    None
                };
                a.icon_data = data;
            },
            None => {},
        }
        apps.insert(j, a);
    }
    apps
}

impl Config {
    /// The icon data of the icon file at `path`, whose reading gave `bytes`:
    /// `None` where it could not be read, else a `data:` URL of the file's
    /// MIME type with its contents in standard base64.
    pub fn load_icon_as_base64(path: &str, bytes: &Option<Vec<u8>>) -> (r: Option<String>)
        requires
            bytes matches Some(b) ==> encodable(b@),
        ensures
            opt_view(r) == icon_data_of(
                path@,
                match bytes {
                    Some(b) => Some(b@),
                    None => None,
                },
            ),
    {
        match bytes {
            Some(b) => {
                let mime = mime_type_for(path);
                let encoded = base64_encode(b.as_slice());
                Some(data_url(mime, encoded.as_str()))
            },
            None => None,
        }
    }

    /// The icon files to read before loading, one entry per project: the
    /// project's icon and each of its apps' icons where they name a file,
    /// `None` elsewhere.
    pub fn icon_files(&self) -> (r: Vec<IconFiles>)
        ensures
            r@.len() == self.projects@.len(),
            forall|i: int|
                0 <= i < r@.len() ==> {
                    &&& opt_view((#[trigger] r@[i]).project) == icon_file_of(self.projects@[i])
                    &&& r@[i].apps@.len() == self.projects@[i].apps@.len()
                    &&& forall|j: int|
                        0 <= j < r@[i].apps@.len() ==> opt_view(#[trigger] r@[i].apps@[j])
                            == app_icon_file_of(self.projects@[i].apps@[j])
                },
    {
        let mut r: Vec<IconFiles> = Vec::new();
        let n = self.projects.len();
        for i in 0..n
            invariant
                n == self.projects@.len(),
                r@.len() == i,
                forall|k: int|
                    0 <= k < i ==> {
                        &&& opt_view((#[trigger] r@[k]).project) == icon_file_of(self.projects@[k])
                        &&& r@[k].apps@.len() == self.projects@[k].apps@.len()
                        &&& forall|j: int|
                            0 <= j < r@[k].apps@.len() ==> opt_view(#[trigger] r@[k].apps@[j])
                                == app_icon_file_of(self.projects@[k].apps@[j])
                    },
        {
            let p = &self.projects[i];
            let mut apps: Vec<Option<String>> = Vec::new();
            let m = p.apps.len();
            for j in 0..m
                invariant
                    m == p.apps@.len(),
                    apps@.len() == j,
                    forall|l: int|
                        0 <= l < j ==> opt_view(#[trigger] apps@[l]) == app_icon_file_of(
                            p.apps@[l],
                        ),
            {
                apps.push(icon_file(&p.apps[j].icon));
            }
            r.push(IconFiles { project: icon_file(&p.icon), apps });
        }
        r
    }

    /// The configuration as loaded: `parsed` with icon data derived, for each
    /// project and each app whose icon names a file, from that file, whose
    /// reading gave the entry of `reads` in the place `icon_files` gave it.
    /// Nothing else changes.
    pub fn load(parsed: Config, reads: &Vec<IconReads>) -> (loaded: Config)
        requires
            reads_encodable(reads@),
        ensures
            loaded.projects@.len() == parsed.projects@.len(),
            forall|i: int|
                0 <= i < parsed.projects@.len() ==> loaded_project(
                    #[trigger] parsed.projects@[i],
                    loaded.projects@[i],
                    project_read(reads@, i),
                    |j: int| app_read(reads@, i, j),
                ),
    {
        let mut config = parsed;
        let no_reads: Vec<Option<Vec<u8>>> = Vec::new();
        let n = config.projects.len();
        for i in 0..n
            invariant
                n == config.projects@.len(),
                n == parsed.projects@.len(),
                no_reads@.len() == 0,
                reads_encodable(reads@),
                forall|k: int|
                    0 <= k < i ==> loaded_project(
                        #[trigger] parsed.projects@[k],
                        config.projects@[k],
                        project_read(reads@, k),
                        |j: int| app_read(reads@, k, j),
                    ),
                forall|k: int| i <= k < n ==> #[trigger] config.projects@[k] == parsed.projects@[k],
        {
            let mut p = config.projects.remove(i);
            let ghost before = p;
            let (project_bytes, app_reads) = if i < reads.len() {
                (&reads[i].project, &reads[i].apps)
            } else {
                (&None, &no_reads)
            };
            match icon_file(&p.icon) {
                Some(path) => {
                    p.icon_data = Config::load_icon_as_base64(path.as_str(), project_bytes);
                },
                None => {},
            }
            let mut apps: Vec<App> = Vec::new();
            std::mem::swap(&mut apps, &mut p.apps);
            p.apps = load_apps(apps, app_reads);
            assert forall|j: int| 0 <= j < before.apps@.len() implies loaded_app(
                #[trigger] before.apps@[j],
                p.apps@[j],
                app_read(reads@, i as int, j),
            ) by {
                if i < reads@.len() {
                    assert(app_reads@ == reads@[i as int].apps@);
                }
            }
            config.projects.insert(i, p);
        }
        config
    }

    /// The project at position `index` of the list, if there is one.
    pub fn selected_project(&self, index: usize) -> (r: Option<&Project>)
        ensures
            r == (if index < self.projects@.len() {
                Some(&self.projects@[index as int])
            } else {
                None
            }),
    {
        if index < self.projects.len() {
            Some(&self.projects[index])
        } else {
            None
        }
    }

    /// Adds `app` to the end of the apps of the first project with id
    /// `project_id`; without such a project nothing changes.
    pub fn add_app(&mut self, project_id: u128, app: App)
        ensures
            match first_index(project_ids(old(self).projects@), project_id) {
                Some(i) => {
                    &&& final(self).projects@.len() == old(self).projects@.len()
                    &&& forall|k: int|
                        0 <= k < old(self).projects@.len() && k != i
                            ==> #[trigger] final(self).projects@[k] == old(self).projects@[k]
                    &&& final(self).projects@[i] == Project {
                        apps: final(self).projects@[i].apps,
                        ..old(self).projects@[i]
                    }
                    &&& final(self).projects@[i].apps@ == old(self).projects@[i].apps@.push(app)
                },
                None => final(self).projects@ == old(self).projects@,
            },
    {
        let ghost ids = project_ids(self.projects@);
        let n = self.projects.len();
        let mut i: usize = 0;
        while i < n
            invariant
                i <= n,
                n == self.projects@.len(),
                self.projects@ == old(self).projects@,
                ids == project_ids(self.projects@),
                forall|k: int| 0 <= k < i ==> ids[k] != project_id,
            decreases n - i,
        {
            if self.projects[i].id == project_id {
                proof {
                    lemma_first_index_at(ids, project_id, i as int);
                }
                let mut p = self.projects.remove(i);
                p.apps.push(app);
                self.projects.insert(i, p);
                assert forall|k: int|
                    0 <= k < old(self).projects@.len() && k != i implies #[trigger] self.projects@[k]
                    == old(self).projects@[k] by {}
                return;
            }
            i = i + 1;
        }
        proof {
            lemma_first_index_none(ids, project_id);
        }
    }
}

impl Default for Config {
    /// A configuration with no projects.
    fn default() -> (r: Config)
        ensures
            r.projects@.len() == 0,
    {
        Config { projects: Vec::new() }
    }
}

impl Project {
    /// The project's accent colour: its colour, or the default blue.
    pub fn accent(&self) -> (r: String)
        ensures
            r@ == match self.color {
                Some(c) => c@,
                None => default_accent(),
            },
    {
        match &self.color {
            Some(c) => c.clone(),
            None => String::from_str("#3b82f6"),
        }
    }
}

/// Law: an icon that holds a `.` names an icon file, the icon text itself;
/// an icon without one (an emoji) names none.
pub proof fn icons_with_a_dot_name_files(i: String)
    ensures
        i@.contains('.') ==> icon_file_for(Some(i)) == Some(i@),
        !i@.contains('.') ==> icon_file_for(Some(i)) is None,
        icon_file_for(None) is None,
{
}

/// Law: loading a project whose icon holds a `.` and whose icon file was
/// read gives it the `data:` URL of those bytes, announced with the MIME type
/// of the path; where the read failed it gets no icon data.
pub proof fn loaded_icon_files_give_data_urls(
    p: Project,
    q: Project,
    read: Option<Seq<u8>>,
    app_reads: spec_fn(int) -> Option<Seq<u8>>,
    i: String,
)
    requires
        loaded_project(p, q, read, app_reads),
        p.icon == Some(i),
        i@.contains('.'),
    ensures
        read matches Some(b) ==> opt_view(q.icon_data) == Some(
            "data:"@ + mime_for_path(i@) + ";base64,"@ + base64_standard(b),
        ),
        read is None ==> q.icon_data is None,
{
}

/// Law: loading an app whose icon holds a `.` and whose icon file was read
/// gives it the `data:` URL of those bytes; where the read failed it gets no
/// icon data.
pub proof fn loaded_app_icon_files_give_data_urls(a: App, b: App, read: Option<Seq<u8>>, i: String)
    requires
        loaded_app(a, b, read),
        a.icon == Some(i),
        i@.contains('.'),
    ensures
        read matches Some(bytes) ==> opt_view(b.icon_data) == Some(
            "data:"@ + mime_for_path(i@) + ";base64,"@ + base64_standard(bytes),
        ),
        read is None ==> b.icon_data is None,
{
}

/// Law: an icon file is announced by its extension: `svg` as SVG, `jpg` and
/// `jpeg` as JPEG, `webp` as WebP; any other extension, or none, as PNG.
pub proof fn mime_types_follow_extensions(path: Seq<char>)
    ensures
        path_extension_of(path) == Some("svg"@) ==> mime_for_path(path) == "image/svg+xml"@,
        path_extension_of(path) == Some("jpg"@) ==> mime_for_path(path) == "image/jpeg"@,
        path_extension_of(path) == Some("jpeg"@) ==> mime_for_path(path) == "image/jpeg"@,
        path_extension_of(path) == Some("webp"@) ==> mime_for_path(path) == "image/webp"@,
        (path_extension_of(path) is None || path_extension_of(path) == Some("png"@))
            ==> mime_for_path(path) == "image/png"@,
{
    reveal_strlit("svg");
    reveal_strlit("jpg");
    reveal_strlit("jpeg");
    reveal_strlit("webp");
    reveal_strlit("png");
    assert("jpg"@[0] != "svg"@[0]);
    assert("jpeg"@.len() != "svg"@.len());
    assert("png"@[0] != "svg"@[0]);
    assert("png"@[0] != "jpg"@[0]);
    assert("webp"@[0] != "jpeg"@[0]);
}

} // verus!
