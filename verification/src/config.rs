use vstd::prelude::*;

use crate::json::{Json, JsonV, EntryV, lemma_view_entries, view_entries};
use crate::text::{blank, is_blank, owned, strip_prefix, text_eq};

verus! {

/// The settings, as (key, value) pairs; a later pair overrides an earlier
/// one with the same key.
pub struct Config {
    values: Vec<(String, String)>,
}

/// The map that a list of settings pairs gives: the last pair for a key wins.
pub open spec fn pairs_map(s: Seq<(Seq<char>, Seq<char>)>) -> Map<Seq<char>, Seq<char>>
    decreases s.len(),
{
    if s.len() == 0 {
        Map::empty()
    } else {
        pairs_map(s.drop_last()).insert(s.last().0, s.last().1)
    }
}

/// Law: a later pair wins: after a pair for `k`, the map gives its value
/// for `k` and keeps every other key as it was; no pairs give no settings.
pub proof fn law_pairs_map_last_wins(
    s: Seq<(Seq<char>, Seq<char>)>,
    k: Seq<char>,
    v: Seq<char>,
    other: Seq<char>,
)
    ensures
        pairs_map(s.push((k, v))).contains_key(k),
        pairs_map(s.push((k, v)))[k] == v,
        other != k ==> (pairs_map(s.push((k, v))).contains_key(other) == pairs_map(s).contains_key(
            other,
        )),
        other != k && pairs_map(s).contains_key(other) ==> pairs_map(s.push((k, v)))[other]
            == pairs_map(s)[other],
        pairs_map(Seq::<(Seq<char>, Seq<char>)>::empty()) == Map::<Seq<char>, Seq<char>>::empty(),
{
    assert(s.push((k, v)).drop_last() =~= s);
    assert(s.push((k, v)).last() == (k, v));
}

pub open spec fn pair_strings(v: Seq<(String, String)>) -> Seq<(Seq<char>, Seq<char>)> {
    v.map_values(|p: (String, String)| (p.0@, p.1@))
}

impl View for Config {
    type V = Map<Seq<char>, Seq<char>>;

    closed spec fn view(&self) -> Map<Seq<char>, Seq<char>> {
        pairs_map(pair_strings(self.values@))
    }
}

/// Pairs after position `i` that do not hold key `k` do not change its value.
proof fn lemma_pairs_map_tail(s: Seq<(Seq<char>, Seq<char>)>, i: int, k: Seq<char>)
    requires
        0 <= i <= s.len(),
        forall|j: int| i <= j < s.len() ==> (#[trigger] s[j]).0 != k,
    ensures
        pairs_map(s).contains_key(k) == pairs_map(s.take(i)).contains_key(k),
        pairs_map(s).contains_key(k) ==> pairs_map(s)[k] == pairs_map(s.take(i))[k],
    decreases s.len() - i,
{
    if i < s.len() {
        assert forall|j: int| i <= j < s.drop_last().len() implies (
        #[trigger] s.drop_last()[j]).0 != k by {
            assert(s.drop_last()[j] == s[j]);
        }
        lemma_pairs_map_tail(s.drop_last(), i, k);
        assert(s.drop_last().take(i) =~= s.take(i));
        assert(s.last().0 != k);
    } else {
        assert(s.take(i) =~= s);
    }
}

/// The settings variables that the environment may set, in the order read.
pub open spec fn env_key_list() -> Seq<Seq<char>> {
    seq![
        "GEMINI_API_KEY"@,
        "OPENAI_API_KEY"@,
        "OPENROUTER_API_KEY"@,
        "OPENROUTER_HTTP_REFERER"@,
        "OPENROUTER_APP_TITLE"@,
        "OPENROUTER_ANALYSIS_MODEL"@,
        "OPENROUTER_BRIEF_MODEL"@,
        "IMAGE_DIR"@,
        "DATABASE_URL"@,
        "LEGACY_DATA_DIR"@,
    ]
}

/// The names of the settings variables that the environment may set.
pub fn env_keys() -> (res: Vec<&'static str>)
    ensures
        res@.map_values(|s: &str| s@) == env_key_list(),
{
    let res = vec![
        "GEMINI_API_KEY",
        "OPENAI_API_KEY",
        "OPENROUTER_API_KEY",
        "OPENROUTER_HTTP_REFERER",
        "OPENROUTER_APP_TITLE",
        "OPENROUTER_ANALYSIS_MODEL",
        "OPENROUTER_BRIEF_MODEL",
        "IMAGE_DIR",
        "DATABASE_URL",
        "LEGACY_DATA_DIR",
    ];
    assert(res@.map_values(|s: &str| s@) =~= env_key_list());
    res
}

fn is_env_key(k: &str) -> (res: bool)
    ensures
        res == env_key_list().contains(k@),
{
    let keys = env_keys();
    let mut i: usize = 0;
    while i < keys.len()
        invariant
            keys@.map_values(|s: &str| s@) == env_key_list(),
            i <= keys@.len(),
            forall|j: int| 0 <= j < i ==> env_key_list()[j] != k@,
        decreases keys@.len() - i,
    {
        assert(env_key_list()[i as int] == keys@[i as int]@);
        if text_eq(keys[i], k) {
            return true;
        }
        i = i + 1;
    }
    assert(!env_key_list().contains(k@)) by {
        if env_key_list().contains(k@) {
            let j = choose|j: int| 0 <= j < env_key_list().len() && env_key_list()[j] == k@;
            assert(env_key_list()[j] != k@);
        }
    }
    false
}

/// The string-valued entries of `config.json`, in order.
pub open spec fn file_settings(entries: Seq<EntryV>) -> Seq<(Seq<char>, Seq<char>)>
    decreases entries.len(),
{
    if entries.len() == 0 {
        Seq::empty()
    } else {
        match entries.last().1 {
            JsonV::String(s) => file_settings(entries.drop_last()).push((entries.last().0, s)),
            _ => file_settings(entries.drop_last()),
        }
    }
}

/// The environment values that count: known keys with a non-blank value.
pub open spec fn env_settings(env: Seq<(Seq<char>, Seq<char>)>) -> Seq<(Seq<char>, Seq<char>)>
    decreases env.len(),
{
    if env.len() == 0 {
        Seq::empty()
    } else if env_key_list().contains(env.last().0) && !is_blank(env.last().1) {
        env_settings(env.drop_last()).push(env.last())
    } else {
        env_settings(env.drop_last())
    }
}

/// The settings that `config.json` and the environment give: the string
/// entries of the file, then the environment, which overrides them.
pub open spec fn loaded_settings(file: Option<JsonV>, env: Seq<(Seq<char>, Seq<char>)>) -> Map<
    Seq<char>,
    Seq<char>,
> {
    let from_file = match file {
        Some(JsonV::Object(entries)) => file_settings(entries),
        _ => Seq::empty(),
    };
    pairs_map(from_file + env_settings(env))
}

/// The model's default for the style analysis and the style brief.
pub open spec fn default_llm_model() -> Seq<char> {
    "google/gemini-2.5-flash"@
}

impl Config {
    /// No settings.
    pub fn empty() -> (res: Config)
        ensures
            res@ == Map::<Seq<char>, Seq<char>>::empty(),
    {
        Config { values: Vec::new() }
    }

    /// Sets `key` to `value`.
    pub fn set(&mut self, key: String, value: String)
        ensures
            final(self)@ == old(self)@.insert(key@, value@),
    {
        let ghost before = self.values@;
        self.values.push((key, value));
        assert(pair_strings(self.values@).drop_last() =~= pair_strings(before));
    }

    /// Builds the settings from the parsed `config.json` (if it could be read
    /// and parsed) and the environment values read for [`env_keys`]. Only the
    /// string entries of the file count; an environment value counts when its
    /// key is one of [`env_keys`] and it is not blank, and then it overrides
    /// the file.
    pub fn from_sources(file: Option<&Json>, env: &Vec<(String, String)>) -> (res: Config)
        ensures
            res@ == loaded_settings(
                match file {
                    Some(j) => Some(j@),
                    None => None,
                },
                pair_strings(env@),
            ),
    {
        let mut config = Config::empty();
        let ghost mut acc: Seq<(Seq<char>, Seq<char>)> = Seq::empty();
        let ghost from_file: Seq<(Seq<char>, Seq<char>)> = Seq::empty();
        match file {
            Some(Json::Object(entries)) => {
                proof {
                    lemma_view_entries(entries@);
                }
                let ghost vs = view_entries(entries@);
                let mut i: usize = 0;
                while i < entries.len()
                    invariant
                        i <= entries@.len(),
                        vs == view_entries(entries@),
                        vs.len() == entries@.len(),
                        forall|k: int|
                            0 <= k < entries@.len() ==> #[trigger] vs[k] == (
                                entries@[k].0@,
                                entries@[k].1@,
                            ),
                        config@ == pairs_map(acc),
                        acc == file_settings(vs.take(i as int)),
                    decreases entries@.len() - i,
                {
                    proof {
                        assert(vs.take(i + 1).drop_last() =~= vs.take(i as int));
                    }
                    match &entries[i].1 {
                        Json::String(s) => {
                            config.set(entries[i].0.clone(), s.clone());
                            proof {
                                let old_acc = acc;
                                acc = acc.push((entries@[i as int].0@, s@));
                                assert(acc.drop_last() =~= old_acc);
                            }
                        },
                        _ => {},
                    }
                    i = i + 1;
                }
                proof {
                    assert(vs.take(entries@.len() as int) =~= vs);
                }
            },
            _ => {},
        }
        let ghost file_part = acc;
        let ghost ev = pair_strings(env@);
        let mut i: usize = 0;
        while i < env.len()
            invariant
                i <= env@.len(),
                ev == pair_strings(env@),
                config@ == pairs_map(acc),
                acc == file_part + env_settings(ev.take(i as int)),
            decreases env@.len() - i,
        {
            proof {
                assert(ev.take(i + 1).drop_last() =~= ev.take(i as int));
                assert(ev[i as int] == (env@[i as int].0@, env@[i as int].1@));
            }
            if is_env_key(env[i].0.as_str()) && !blank(env[i].1.as_str()) {
                config.set(env[i].0.clone(), env[i].1.clone());
                proof {
                    assert(file_part + env_settings(ev.take(i + 1)) =~= (file_part
                        + env_settings(ev.take(i as int))).push(ev[i as int]));
                    let old_acc = acc;
                    acc = acc.push(ev[i as int]);
                    assert(acc.drop_last() =~= old_acc);
                }
            } else {
                proof {
                    assert(env_settings(ev.take(i + 1)) == env_settings(ev.take(i as int)));
                }
            }
            i = i + 1;
        }
        proof {
            assert(ev.take(env@.len() as int) =~= ev);
            match file {
                Some(j) => {
                    if !(j@ is Object) {
                        assert(file_part =~= Seq::empty());
                    }
                },
                None => {},
            }
        }
        config
    }

    /// The value of a setting.
    pub fn get(&self, key: &str) -> (res: Option<&str>)
        ensures
            match res {
                Some(v) => self@.contains_key(key@) && v@ == self@[key@],
                None => !self@.contains_key(key@),
            },
    {
        let ghost s = pair_strings(self.values@);
        let mut i: usize = self.values.len();
        while i > 0
            invariant
                i <= self.values@.len(),
                s == pair_strings(self.values@),
                forall|j: int| i <= j < s.len() ==> (#[trigger] s[j]).0 != key@,
            decreases i,
        {
            let ghost e = s[i - 1];
            assert(e == (self.values@[i - 1].0@, self.values@[i - 1].1@));
            if text_eq(self.values[i - 1].0.as_str(), key) {
                proof {
                    lemma_pairs_map_tail(s, i as int, key@);
                    assert(s.take(i as int).drop_last() =~= s.take(i - 1));
                    assert(s.take(i as int).last() == e);
                }
                return Some(self.values[i - 1].1.as_str());
            }
            i = i - 1;
        }
        proof {
            lemma_pairs_map_tail(s, 0, key@);
            assert(s.take(0) =~= Seq::<(Seq<char>, Seq<char>)>::empty());
        }
        None
    }

    /// The OpenRouter API key, when it is set and not blank.
    pub fn openrouter_api_key(&self) -> (res: Option<&str>)
        ensures
            match res {
                Some(v) => self@.contains_key("OPENROUTER_API_KEY"@) && v@ == self@["OPENROUTER_API_KEY"@]
                    && !is_blank(v@),
                None => !self@.contains_key("OPENROUTER_API_KEY"@) || is_blank(
                    self@["OPENROUTER_API_KEY"@],
                ),
            },
    {
        match self.get("OPENROUTER_API_KEY") {
            Some(k) => {
                if blank(k) {
                    None
                } else {
                    Some(k)
                }
            },
            None => None,
        }
    }

    /// The vision model for the style analysis.
    pub fn analysis_model(&self) -> (res: &str)
        ensures
            res@ == (if self@.contains_key("OPENROUTER_ANALYSIS_MODEL"@) {
                self@["OPENROUTER_ANALYSIS_MODEL"@]
            } else {
                default_llm_model()
            }),
    {
        match self.get("OPENROUTER_ANALYSIS_MODEL") {
            Some(m) => m,
            None => "google/gemini-2.5-flash",
        }
    }

    /// The text model for the style brief.
    pub fn brief_model(&self) -> (res: &str)
        ensures
            res@ == (if self@.contains_key("OPENROUTER_BRIEF_MODEL"@) {
                self@["OPENROUTER_BRIEF_MODEL"@]
            } else {
                default_llm_model()
            }),
    {
        match self.get("OPENROUTER_BRIEF_MODEL") {
            Some(m) => m,
            None => "google/gemini-2.5-flash",
        }
    }

    /// A copy of the settings.
    pub fn duplicate(&self) -> (res: Config)
        ensures
            res@ == self@,
    {
        let mut values: Vec<(String, String)> = Vec::new();
        let mut i: usize = 0;
        while i < self.values.len()
            invariant
                i <= self.values@.len(),
                values@.len() == i,
                forall|k: int|
                    0 <= k < i ==> (#[trigger] values@[k]).0@ == self.values@[k].0@ && values@[k].1@
                        == self.values@[k].1@,
            decreases self.values@.len() - i,
        {
            values.push((self.values[i].0.clone(), self.values[i].1.clone()));
            i = i + 1;
        }
        assert(pair_strings(values@) =~= pair_strings(self.values@));
        Config { values }
    }
}

/// A later environment value overrides what `config.json` says, and a
/// setting that the environment does not give keeps the file's value.
pub proof fn law_env_overrides_file(file: Seq<EntryV>, env: Seq<(Seq<char>, Seq<char>)>, k: Seq<char>)
    ensures
        env_settings(env).len() > 0 && env_settings(env).last().0 == k ==> loaded_settings(
            Some(JsonV::Object(file)),
            env,
        )[k] == env_settings(env).last().1,
        (forall|j: int| 0 <= j < env_settings(env).len() ==> (#[trigger] env_settings(env)[j]).0 != k)
            ==> (loaded_settings(Some(JsonV::Object(file)), env).contains_key(k)
            == pairs_map(file_settings(file)).contains_key(k) && (pairs_map(
            file_settings(file),
        ).contains_key(k) ==> loaded_settings(Some(JsonV::Object(file)), env)[k] == pairs_map(
            file_settings(file),
        )[k])),
{
    let all = file_settings(file) + env_settings(env);
    if env_settings(env).len() > 0 {
        assert(all.drop_last() =~= file_settings(file) + env_settings(env).drop_last());
        assert(all.last() == env_settings(env).last());
    }
    if forall|j: int| 0 <= j < env_settings(env).len() ==> (#[trigger] env_settings(env)[j]).0 != k {
        let n = file_settings(file).len() as int;
        assert forall|j: int| n <= j < all.len() implies (#[trigger] all[j]).0 != k by {
            assert(all[j] == env_settings(env)[j - n]);
        }
        lemma_pairs_map_tail(all, n, k);
        assert(all.take(n) =~= file_settings(file));
    }
}

/// Law: the environment is read pair by pair: a pair counts exactly when
/// its key is one of the known settings and its value is not blank, and the
/// pairs of two lists one after the other are those of each in turn.
pub proof fn law_env_settings(
    a: Seq<(Seq<char>, Seq<char>)>,
    b: Seq<(Seq<char>, Seq<char>)>,
    k: Seq<char>,
    v: Seq<char>,
)
    ensures
        env_settings(a + b) == env_settings(a) + env_settings(b),
        env_key_list().contains(k) && !is_blank(v) ==> env_settings(seq![(k, v)]) == seq![(k, v)],
        !(env_key_list().contains(k) && !is_blank(v)) ==> env_settings(seq![(k, v)]) == Seq::<
            (Seq<char>, Seq<char>),
        >::empty(),
    decreases b.len(),
{
    if b.len() == 0 {
        assert(a + b =~= a);
        assert(env_settings(a) + env_settings(b) =~= env_settings(a));
    } else {
        assert((a + b).drop_last() =~= a + b.drop_last());
        assert((a + b).last() == b.last());
        law_env_settings(a, b.drop_last(), k, v);
        assert(env_settings(a) + env_settings(b.drop_last()).push(b.last()) =~= (env_settings(a)
            + env_settings(b.drop_last())).push(b.last()));
    }
    let e = Seq::<(Seq<char>, Seq<char>)>::empty();
    assert(seq![(k, v)].drop_last() =~= e);
    assert(seq![(k, v)].last() == (k, v));
    assert(env_settings(e) == e);
    assert(e.push((k, v)) =~= seq![(k, v)]);
}

/// Law: `config.json` is read member by member: a member counts exactly
/// when its value is a string, and the members of two lists one after the
/// other are those of each in turn.
pub proof fn law_file_settings(a: Seq<EntryV>, b: Seq<EntryV>, k: Seq<char>, v: JsonV)
    ensures
        file_settings(a + b) == file_settings(a) + file_settings(b),
        v is String ==> file_settings(seq![(k, v)]) == seq![(k, v->String_0)],
        !(v is String) ==> file_settings(seq![(k, v)]) == Seq::<(Seq<char>, Seq<char>)>::empty(),
    decreases b.len(),
{
    if b.len() == 0 {
        assert(a + b =~= a);
        assert(file_settings(a) + file_settings(b) =~= file_settings(a));
    } else {
        assert((a + b).drop_last() =~= a + b.drop_last());
        assert((a + b).last() == b.last());
        law_file_settings(a, b.drop_last(), k, v);
        match b.last().1 {
            JsonV::String(t) => {
                assert(file_settings(a) + file_settings(b.drop_last()).push((b.last().0, t)) =~= (
                file_settings(a) + file_settings(b.drop_last())).push((b.last().0, t)));
            },
            _ => {},
        }
    }
    let e = Seq::<EntryV>::empty();
    assert(seq![(k, v)].drop_last() =~= e);
    assert(seq![(k, v)].last() == (k, v));
    assert(file_settings(e) == Seq::<(Seq<char>, Seq<char>)>::empty());
    if v is String {
        assert(Seq::<(Seq<char>, Seq<char>)>::empty().push((k, v->String_0)) =~= seq![
            (k, v->String_0),
        ]);
    }
}

/// The resolved locations of the application's files.
pub struct Paths {
    pub app_data_dir: String,
    pub db_path: String,
    pub image_dir: String,
}

/// A path segment that is one plain name: not empty, and without separators
/// or a drive colon.
pub open spec fn is_plain_segment(s: Seq<char>) -> bool {
    s.len() > 0 && !s.contains('/') && !s.contains('\\') && !s.contains(':')
}

/// `res` is `base` joined with `segment`: the segment appended, with at most
/// one separator (`/` or `\`) in between. No separator goes after an empty
/// base or one that ends in `/`; one always goes after a base whose last
/// character is neither `/`, `\` nor `:` (what follows a base ending in `\`
/// or `:` depends on the platform: on Windows they end a directory or drive).
pub open spec fn joined_path(base: Seq<char>, segment: Seq<char>, res: Seq<char>) -> bool {
    exists|sep: Seq<char>|
        #![trigger base + sep + segment]
        {
            &&& sep.len() <= 1
            &&& (sep.len() == 1 ==> (sep[0] == '/' || sep[0] == '\\'))
            &&& res == base + sep + segment
            &&& (base.len() == 0 ==> sep.len() == 0)
            &&& (base.len() > 0 && base.last() == '/' ==> sep.len() == 0)
            &&& (base.len() > 0 && base.last() != '/' && base.last() != '\\' && base.last() != ':'
                ==> sep.len() == 1)
        }
}

/// Calls `Path::join` and converts the result to a `String`. For a segment
/// that is a plain name, std's `PathBuf::push` appends it to the base and
/// puts the platform's separator in between unless the base is empty or
/// already ends in a separator (on Windows also after a bare drive such as
/// `C:`); the contract says that much and leaves open which separator the
/// platform uses (`/`, or `\` on Windows).
#[verifier::external_body]
pub(crate) fn path_join(base: &str, segment: &str) -> (res: String)
    requires
        is_plain_segment(segment@),
    ensures
        joined_path(base@, segment@, res@),
{
    std::path::Path::new(base).join(segment).to_string_lossy().into_owned()
}

/// The database file configured through `DATABASE_URL` (a `file:` prefix is
/// dropped), if it is set.
pub open spec fn configured_db_path(config: Map<Seq<char>, Seq<char>>) -> Option<Seq<char>> {
    if config.contains_key("DATABASE_URL"@) {
        let url = config["DATABASE_URL"@];
        Some(
            if "file:"@.is_prefix_of(url) {
                url.subrange(5, url.len() as int)
            } else {
                url
            },
        )
    } else {
        None
    }
}

impl Paths {
    /// The database file and the image directory: those configured through
    /// `DATABASE_URL` and `IMAGE_DIR`, else `data/app.db` and `data/images`
    /// under the app data directory.
    pub fn resolve(app_data_dir: String, config: &Config) -> (res: Paths)
        ensures
            res.app_data_dir@ == app_data_dir@,
            match configured_db_path(config@) {
                Some(p) => res.db_path@ == p,
                None => exists|data: Seq<char>|
                    joined_path(app_data_dir@, "data"@, data) && joined_path(
                        data,
                        "app.db"@,
                        res.db_path@,
                    ),
            },
            if config@.contains_key("IMAGE_DIR"@) {
                res.image_dir@ == config@["IMAGE_DIR"@]
            } else {
                exists|data: Seq<char>|
                    joined_path(app_data_dir@, "data"@, data) && joined_path(
                        data,
                        "images"@,
                        res.image_dir@,
                    )
            },
    {
        proof {
            reveal_strlit("data");
            reveal_strlit("app.db");
            reveal_strlit("images");
            reveal_strlit("file:");
        }
        let db_path = match config.get("DATABASE_URL") {
            Some(url) => match strip_prefix(url, "file:") {
                Some(p) => p,
                None => owned(url),
            },
            None => {
                let data = path_join(app_data_dir.as_str(), "data");
                path_join(data.as_str(), "app.db")
            },
        };
        let image_dir = match config.get("IMAGE_DIR") {
            Some(dir) => owned(dir),
            None => {
                let data = path_join(app_data_dir.as_str(), "data");
                path_join(data.as_str(), "images")
            },
        };
        Paths { app_data_dir, db_path, image_dir }
    }
}

} // verus!
