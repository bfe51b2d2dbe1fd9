//! Models offered beside the built-in ones: Gemma 4 served by Cerebras when
//! an API key is configured, and the models of a local Ollama install.
use vstd::prelude::*;
use crate::text;
use crate::order;

verus! {

broadcast use vstd::slice::group_slice_axioms;

pub const CEREBRAS_API_KEY_ENV_VAR: &'static str = "CEREBRAS_API_KEY";

/// Another variable the Cerebras API key is read from.
pub const CEREBRAS_API_TOKEN_ENV_VAR: &'static str = "CEREBRAS_API_TOKEN";

pub const CEREBRAS_PROVIDER_ID: &'static str = "cerebras";

pub const CEREBRAS_GEMMA4_MODEL: &'static str = "gemma-4-31b";

/// Port of the local Ollama API.
pub const OLLAMA_PORT: u16 = 11434;

pub const OLLAMA_GEMMA4_MODEL: &'static str = "gemma4:12b";

pub const OLLAMA_PROVIDER_ID: &'static str = "ollama";

/// What the model picker and the client need to know of a model.
pub struct ModelInfo {
    pub slug: String,
    pub display_name: String,
    pub description: Option<String>,
    pub supported_reasoning_levels: Vec<String>,
    pub show_in_picker: bool,
    pub supported_in_api: bool,
    pub priority: i32,
    pub supports_parallel_tool_calls: bool,
    pub context_window: Option<i64>,
    pub accepts_images: bool,
}

/// Some model in `models` has the slug `slug`.
pub open spec fn has_slug(models: Seq<ModelInfo>, slug: Seq<char>) -> bool {
    exists|i: int| 0 <= i < models.len() && (#[trigger] models[i]).slug@ == slug
}

/// `m` is Gemma 4 31B as Cerebras serves it.
pub open spec fn is_cerebras_gemma4(m: ModelInfo) -> bool {
    &&& m.slug@ == CEREBRAS_GEMMA4_MODEL@
    &&& m.display_name@ == "Gemma 4 31B"@
    &&& m.description matches Some(d) && d@ == "Gemma 4 served by Cerebras."@
    &&& m.supported_reasoning_levels@.len() == 0
    &&& m.show_in_picker
    &&& m.supported_in_api
    &&& m.priority == 89
    &&& m.supports_parallel_tool_calls
    &&& m.context_window == Some(131_072i64)
    &&& m.accepts_images
}

/// `m` is the local Ollama model `slug`.
pub open spec fn is_ollama_model(m: ModelInfo, slug: Seq<char>) -> bool {
    &&& m.slug@ == slug
    &&& m.display_name@ == ollama_display(slug)
    &&& m.description matches Some(d) && d@ == "Local model via Ollama."@
    &&& m.supported_reasoning_levels@.len() == 0
    &&& m.show_in_picker
    &&& m.supported_in_api
    &&& m.priority == 90
    &&& !m.supports_parallel_tool_calls
    &&& m.context_window == Some(128_000i64)
    &&& !m.accepts_images
}

/// The two models carry the same information.
pub open spec fn same_model(a: ModelInfo, b: ModelInfo) -> bool {
    &&& a.slug@ == b.slug@
    &&& a.display_name@ == b.display_name@
    &&& a.description.is_some() == b.description.is_some()
    &&& (a.description matches Some(d) ==> b.description.unwrap()@ == d@)
    &&& a.supported_reasoning_levels@.len() == b.supported_reasoning_levels@.len()
    &&& forall|i: int| 0 <= i < a.supported_reasoning_levels@.len() ==> (#[trigger] a.supported_reasoning_levels@[i])@ == b.supported_reasoning_levels@[i]@
    &&& a.show_in_picker == b.show_in_picker
    &&& a.supported_in_api == b.supported_in_api
    &&& a.priority == b.priority
    &&& a.supports_parallel_tool_calls == b.supports_parallel_tool_calls
    &&& a.context_window == b.context_window
    &&& a.accepts_images == b.accepts_images
}

/// A copy of `m`.
pub fn copy_model(m: &ModelInfo) -> (r: ModelInfo)
    ensures
        same_model(*m, r),
{
    let mut levels: Vec<String> = Vec::new();
    let mut i: usize = 0;
    while i < m.supported_reasoning_levels.len()
        invariant
            i <= m.supported_reasoning_levels@.len(),
            levels@.len() == i,
            forall|j: int| 0 <= j < i ==> (#[trigger] m.supported_reasoning_levels@[j])@ == levels@[j]@,
        decreases m.supported_reasoning_levels.len() - i,
    {
        levels.push(m.supported_reasoning_levels[i].clone());
        i = i + 1;
    }
    ModelInfo {
        slug: m.slug.clone(),
        display_name: m.display_name.clone(),
        description: match &m.description {
            Some(d) => Some(d.clone()),
            None => None,
        },
        supported_reasoning_levels: levels,
        show_in_picker: m.show_in_picker,
        supported_in_api: m.supported_in_api,
        priority: m.priority,
        supports_parallel_tool_calls: m.supports_parallel_tool_calls,
        context_window: m.context_window,
        accepts_images: m.accepts_images,
    }
}

/// Whether some model has the slug `slug`.
pub fn contains_slug(models: &Vec<ModelInfo>, slug: &str) -> (b: bool)
    ensures
        b == has_slug(models@, slug@),
{
    let mut i: usize = 0;
    while i < models.len()
        invariant
            i <= models@.len(),
            forall|j: int| 0 <= j < i ==> (#[trigger] models@[j]).slug@ != slug@,
        decreases models.len() - i,
    {
        if text::str_equal(models[i].slug.as_str(), slug) {
            return true;
        }
        i = i + 1;
    }
    false
}

/// Gemma 4 31B as Cerebras serves it.
pub fn gemma4_model_info() -> (m: ModelInfo)
    ensures
        is_cerebras_gemma4(m),
{
    ModelInfo {
        slug: String::from_str(CEREBRAS_GEMMA4_MODEL),
        display_name: String::from_str("Gemma 4 31B"),
        description: Some(String::from_str("Gemma 4 served by Cerebras.")),
        supported_reasoning_levels: Vec::new(),
        show_in_picker: true,
        supported_in_api: true,
        priority: 89,
        supports_parallel_tool_calls: true,
        context_window: Some(131_072),
        accepts_images: true,
    }
}

/// Adds Gemma 4 on Cerebras when an API key is available and it is not
/// listed yet.
pub fn append_cerebras_models(models: &mut Vec<ModelInfo>, api_key_available: bool)
    ensures
        !api_key_available || has_slug(old(models)@, CEREBRAS_GEMMA4_MODEL@) ==> final(models)@ == old(models)@,
        api_key_available && !has_slug(old(models)@, CEREBRAS_GEMMA4_MODEL@) ==> final(models)@.len() == old(models)@.len() + 1
            && final(models)@.drop_last() == old(models)@ && is_cerebras_gemma4(final(models)@.last()),
{
    if !api_key_available || contains_slug(models, CEREBRAS_GEMMA4_MODEL) {
        return;
    }
    models.push(gemma4_model_info());
    assert(models@.drop_last() =~= old(models)@);
}

/// The provider that serves `model` when it is the Cerebras Gemma 4 model.
pub fn detected_cerebras_model_provider_id(model: &str) -> (r: Option<&'static str>)
    ensures
        model@ == CEREBRAS_GEMMA4_MODEL@ ==> (r matches Some(p) && p@ == CEREBRAS_PROVIDER_ID@),
        model@ != CEREBRAS_GEMMA4_MODEL@ ==> r is None,
{
    if text::str_equal(model, CEREBRAS_GEMMA4_MODEL) {
        Some(CEREBRAS_PROVIDER_ID)
    } else {
        None
    }
}

/// A configured value is usable as an API key when it is not blank.
pub open spec fn usable_key(v: Option<String>) -> bool {
    v matches Some(s) && !text::is_blank(s@)
}

/// Whether a configured value is usable as an API key.
pub fn key_usable(v: &Option<String>) -> (b: bool)
    ensures
        b == usable_key(*v),
{
    match v {
        Some(s) => !text::is_blank_str(s.as_str()),
        None => false,
    }
}

/// Whether a Cerebras API key is available, looking up `CEREBRAS_API_KEY`
/// and then `CEREBRAS_API_TOKEN` through `lookup` (the environment).
pub fn cerebras_api_key_available_with_env<F: Fn(&str) -> Option<String>>(lookup: F) -> (b: bool)
    requires
        forall|name: &str| lookup.requires((name,)),
    ensures
        exists|k: Option<String>|
            #[trigger] lookup.ensures((CEREBRAS_API_KEY_ENV_VAR,), k) && (usable_key(k) ==> b) && (!usable_key(k)
                ==> exists|t: Option<String>| #[trigger] lookup.ensures((CEREBRAS_API_TOKEN_ENV_VAR,), t) && b == usable_key(t)),
{
    let key = lookup(CEREBRAS_API_KEY_ENV_VAR);
    if key_usable(&key) {
        return true;
    }
    let token = lookup(CEREBRAS_API_TOKEN_ENV_VAR);
    key_usable(&token)
}

/// `m` is a copy of a detected model whose slug was not listed in `listed`.
pub open spec fn added_from(m: ModelInfo, detected: Seq<ModelInfo>, listed: Seq<ModelInfo>) -> bool {
    exists|j: int| 0 <= j < detected.len() && same_model(#[trigger] detected[j], m) && !has_slug(listed, detected[j].slug@)
}

/// Adds each detected Ollama model that is not listed yet.
pub fn append_detected_ollama_models(models: &mut Vec<ModelInfo>, detected: &Vec<ModelInfo>)
    ensures
        final(models)@.len() >= old(models)@.len(),
        final(models)@.take(old(models)@.len() as int) == old(models)@,
        forall|i: int| 0 <= i < detected@.len() ==> has_slug(final(models)@, (#[trigger] detected@[i]).slug@),
        forall|i: int| old(models)@.len() <= i < final(models)@.len() ==> #[trigger] added_from(final(models)@[i], detected@, old(models)@),
{
    let ghost start = models@;
    let mut k: usize = 0;
    while k < detected.len()
        invariant
            k <= detected@.len(),
            models@.len() >= start.len(),
            models@.take(start.len() as int) == start,
            forall|i: int| 0 <= i < k ==> has_slug(models@, (#[trigger] detected@[i]).slug@),
            forall|i: int| start.len() <= i < models@.len() ==> #[trigger] added_from(models@[i], detected@, start),
        decreases detected.len() - k,
    {
        let ghost before = models@;
        if !contains_slug(models, detected[k].slug.as_str()) {
            let m = copy_model(&detected[k]);
            models.push(m);
            proof {
                assert(models@[before.len() as int] == m);
                assert(models@.take(start.len() as int) =~= before.take(start.len() as int));
                assert forall|i: int| 0 <= i < k + 1 implies has_slug(models@, (#[trigger] detected@[i]).slug@) by {
                    if i < k {
                        let j = choose|j: int| 0 <= j < before.len() && (#[trigger] before[j]).slug@ == detected@[i].slug@;
                        assert(models@[j] == before[j]);
                    } else {
                        assert(models@[before.len() as int].slug@ == detected@[i].slug@);
                    }
                }
                assert forall|i: int| start.len() <= i < models@.len() implies #[trigger] added_from(models@[i], detected@, start) by {
                    if i < before.len() {
                        assert(models@[i] == before[i]);
                    } else {
                        if has_slug(start, detected@[k as int].slug@) {
                            let j = choose|j: int| 0 <= j < start.len() && (#[trigger] start[j]).slug@ == detected@[k as int].slug@;
                            assert(before.take(start.len() as int)[j] == before[j]);
                        }
                        assert(same_model(detected@[k as int], models@[i]));
                        assert(added_from(models@[i], detected@, start));
                    }
                }
            }
        }
        k = k + 1;
    }
}

/// Adds Gemma 4 12B on Ollama when Ollama is supported and it is not
/// listed yet.
pub fn append_ollama_models(models: &mut Vec<ModelInfo>, ollama_supported: bool)
    ensures
        !ollama_supported || has_slug(old(models)@, OLLAMA_GEMMA4_MODEL@) ==> final(models)@ == old(models)@,
        ollama_supported && !has_slug(old(models)@, OLLAMA_GEMMA4_MODEL@) ==> final(models)@.len() == old(models)@.len() + 1
            && final(models)@.drop_last() == old(models)@ && is_ollama_model(final(models)@.last(), OLLAMA_GEMMA4_MODEL@),
{
    if !ollama_supported || contains_slug(models, OLLAMA_GEMMA4_MODEL) {
        return;
    }
    models.push(ollama_model_info(OLLAMA_GEMMA4_MODEL));
    assert(models@.drop_last() =~= old(models)@);
}

/// The provider that serves `model` when it is one of the detected Ollama models.
pub fn detected_ollama_model_provider_id(model: &str, detected: &Vec<ModelInfo>) -> (r: Option<&'static str>)
    ensures
        has_slug(detected@, model@) ==> (r matches Some(p) && p@ == OLLAMA_PROVIDER_ID@),
        !has_slug(detected@, model@) ==> r is None,
{
    if contains_slug(detected, model) {
        Some(OLLAMA_PROVIDER_ID)
    } else {
        None
    }
}

/// The model slugs Ollama reports: those from its API, or else those from
/// its command line, sorted and without duplicates.
pub fn ollama_model_slugs(from_api: Vec<String>, from_command: Vec<String>) -> (r: Vec<String>)
    ensures
        order::strictly_sorted(r@),
        order::same_strings(r@, if from_api@.len() > 0 { from_api@ } else { from_command@ }),
{
    if from_api.len() > 0 {
        order::sort_dedup(from_api)
    } else {
        order::sort_dedup(from_command)
    }
}

/// The names reported by the Ollama API that are not blank.
pub fn usable_model_names(names: Vec<String>) -> (r: Vec<String>)
    ensures
        r@ == names@.filter(|n: String| !text::is_blank(n@)),
{
    let ghost pred = |n: String| !text::is_blank(n@);
    let mut r: Vec<String> = Vec::new();
    let mut i: usize = 0;
    assert(names@.take(0).filter(pred) =~= seq![]);
    while i < names.len()
        invariant
            i <= names@.len(),
            pred == (|n: String| !text::is_blank(n@)),
            r@ == names@.take(i as int).filter(pred),
        decreases names.len() - i,
    {
        if !text::is_blank_str(names[i].as_str()) {
            r.push(names[i].clone());
        }
        proof {
            let t = names@.take(i + 1);
            assert(t.drop_last() =~= names@.take(i as int));
            reveal_with_fuel(Seq::filter, 1);
        }
        i = i + 1;
    }
    assert(names@.take(names@.len() as int) =~= names@);
    r
}

/// The first whitespace-separated word of `s`.
pub open spec fn first_word(s: Seq<char>) -> Option<Seq<char>> {
    let t = text::trim_start(s);
    if t.len() == 0 {
        None
    } else {
        Some(t.take(word_len(t) as int))
    }
}

/// Length of the run of non-whitespace characters that starts `s`.
pub open spec fn word_len(s: Seq<char>) -> nat
    decreases s.len(),
{
    if s.len() == 0 || text::is_ws(s[0]) {
        0
    } else {
        1 + word_len(s.drop_first())
    }
}

/// The model names in the output of `ollama list`: the first word of each
/// line after the header.
pub open spec fn listed_names(lines: Seq<Seq<char>>) -> Seq<Seq<char>>
    decreases lines.len(),
{
    if lines.len() <= 1 {
        seq![]
    } else {
        let rest = listed_names(lines.drop_last());
        match first_word(lines.last()) {
            Some(w) => rest.push(w),
            None => rest,
        }
    }
}

/// The first word of `v`.
fn first_word_of(v: &[char]) -> (r: Option<Vec<char>>)
    ensures
        match r {
            Some(w) => first_word(v@) == Some(w@),
            None => first_word(v@) is None,
        },
{
    let start = text::trim_start_index(v);
    let t = text::sub_chars(v, start, v.len());
    proof {
        text::lemma_trim_start_blank(v@);
        assert(t@ =~= text::trim_start(v@));
    }
    if t.len() == 0 {
        return None;
    }
    let mut n: usize = 0;
    assert(t@.skip(0) =~= t@);
    while n < t.len() && !text::is_ws_char(t[n])
        invariant
            n <= t@.len(),
            word_len(t@) == n + word_len(t@.skip(n as int)),
        decreases t.len() - n,
    {
        assert(t@.skip(n as int).drop_first() =~= t@.skip(n + 1));
        n = n + 1;
    }
    let w = text::sub_chars(t.as_slice(), 0, n);
    assert(w@ =~= t@.take(n as int));
    Some(w)
}

/// The model names that `ollama list` printed.
pub fn slugs_from_list_output(stdout: &[u8]) -> (r: Vec<String>)
    ensures
        text::strings_view(r@) == listed_names(text::lines(crate::read_file::lossy_utf8(stdout@))),
{
    let decoded = crate::read_file::decode_lossy(stdout);
    let chars = text::chars_of(decoded.as_str());
    let ls = text::lines_of(chars.as_slice());
    let ghost want = text::lines(chars@);
    let mut r: Vec<String> = Vec::new();
    let mut i: usize = 0;
    assert(text::strings_view(r@) =~= seq![]);
    while i < ls.len()
        invariant
            i <= ls@.len() == want.len(),
            forall|j: int| 0 <= j < ls@.len() ==> #[trigger] ls@[j]@ == want[j],
            text::strings_view(r@) == listed_names(want.take(i as int)),
        decreases ls.len() - i,
    {
        let ghost before = r@;
        proof {
            let t = want.take(i + 1);
            assert(t.drop_last() =~= want.take(i as int));
            assert(t.last() == ls@[i as int]@);
        }
        if i >= 1 {
            match first_word_of(ls[i].as_slice()) {
                Some(w) => {
                    let s = text::string_of(w.as_slice());
                    r.push(s);
                    assert(text::strings_view(r@) =~= text::strings_view(before).push(s@));
                },
                None => {},
            }
        } else {
            assert(listed_names(want.take(1)) =~= seq![]);
        }
        i = i + 1;
    }
    assert(want.take(ls@.len() as int) =~= want);
    r
}

/// What `char::to_uppercase` makes of `c` (one or more characters).
pub uninterp spec fn char_upper(c: char) -> Seq<char>;

/// `char::to_uppercase`, collected. Claimed: the result is the mapping
/// named `char_upper`.
#[verifier::external_body]
fn upper_char(c: char) -> (s: String)
    ensures
        s@ == char_upper(c),
{
    c.to_uppercase().collect()
}

/// What `str::to_uppercase` makes of `s`.
pub uninterp spec fn str_upper(s: Seq<char>) -> Seq<char>;

/// `str::to_uppercase`. Claimed: the result is the mapping named `str_upper`.
#[verifier::external_body]
fn upper_str(s: &str) -> (r: String)
    ensures
        r@ == str_upper(s@),
{
    s.to_uppercase()
}

pub open spec fn is_name_sep(c: char) -> bool {
    c == '-' || c == '_'
}

/// The pieces of `s` between `-` and `_` separators, empty ones included
/// (`str::split`).
pub open spec fn name_parts(s: Seq<char>) -> Seq<Seq<char>>
    decreases s.len(),
{
    if s.len() == 0 {
        seq![seq![]]
    } else {
        let p = name_parts(s.drop_last());
        if is_name_sep(s.last()) {
            p.push(seq![])
        } else {
            p.update(p.len() - 1, p.last().push(s.last()))
        }
    }
}

proof fn lemma_name_parts_nonempty(s: Seq<char>)
    ensures
        name_parts(s).len() >= 1,
    decreases s.len(),
{
    if s.len() > 0 {
        lemma_name_parts_nonempty(s.drop_last());
    }
}

/// A word with its first character in upper case.
pub open spec fn title_word(w: Seq<char>) -> Seq<char> {
    if w.len() == 0 {
        seq![]
    } else {
        char_upper(w[0]) + w.drop_first()
    }
}

/// The words of a model name, capitalised and joined by spaces.
pub open spec fn title_case(name: Seq<char>) -> Seq<char> {
    text::join(name_parts(name).filter(|p: Seq<char>| p.len() > 0).map_values(|p: Seq<char>| title_word(p)), seq![' '])
}

/// How a local model is named in the picker: `Gemma 4 12B` for the known
/// Gemma tag, else the name in title case and the tag after `:` in upper case.
pub open spec fn ollama_display(slug: Seq<char>) -> Seq<char> {
    if slug == OLLAMA_GEMMA4_MODEL@ {
        "Gemma 4 12B"@
    } else {
        match text::find_char(slug, ':') {
            Some(i) => title_case(slug.take(i)) + seq![' '] + str_upper(slug.skip(i + 1)),
            None => title_case(slug),
        }
    }
}

/// The words of a model name, capitalised and joined by spaces.
pub fn title_case_model_name(name: &str) -> (r: String)
    ensures
        r@ == title_case(name@),
{
    let v = text::chars_of(name);
    let mut parts: Vec<Vec<char>> = Vec::new();
    let mut cur: Vec<char> = Vec::new();
    let mut i: usize = 0;
    assert(v@.take(0) =~= seq![]);
    while i < v.len()
        invariant
            i <= v@.len(),
            name_parts(v@.take(i as int)).len() == parts@.len() + 1,
            forall|j: int| 0 <= j < parts@.len() ==> #[trigger] parts@[j]@ == name_parts(v@.take(i as int))[j],
            cur@ == name_parts(v@.take(i as int)).last(),
        decreases v.len() - i,
    {
        let c = v[i];
        proof {
            let t = v@.take(i + 1);
            assert(t.drop_last() =~= v@.take(i as int));
            assert(t.last() == c);
            lemma_name_parts_nonempty(v@.take(i as int));
        }
        if c == '-' || c == '_' {
            parts.push(cur);
            cur = Vec::new();
        } else {
            cur.push(c);
        }
        i = i + 1;
    }
    parts.push(cur);
    assert(v@.take(v@.len() as int) =~= v@);
    let ghost all = name_parts(v@);
    assert forall|j: int| 0 <= j < parts@.len() implies #[trigger] parts@[j]@ == all[j] by {}
    let ghost pred = |p: Seq<char>| p.len() > 0;
    let mut words: Vec<String> = Vec::new();
    let mut k: usize = 0;
    assert(all.take(0).filter(pred).map_values(|p: Seq<char>| title_word(p)) =~= seq![]);
    assert(text::strings_view(words@) =~= seq![]);
    while k < parts.len()
        invariant
            k <= parts@.len() == all.len(),
            pred == (|p: Seq<char>| p.len() > 0),
            forall|j: int| 0 <= j < parts@.len() ==> #[trigger] parts@[j]@ == all[j],
            text::strings_view(words@) == all.take(k as int).filter(pred).map_values(|p: Seq<char>| title_word(p)),
        decreases parts.len() - k,
    {
        let ghost before = words@;
        proof {
            let t = all.take(k + 1);
            assert(t.drop_last() =~= all.take(k as int));
            assert(t.last() == parts@[k as int]@);
            reveal_with_fuel(Seq::filter, 1);
        }
        if parts[k].len() > 0 {
            let mut w = text::chars_of(upper_char(parts[k][0]).as_str());
            let rest = text::sub_chars(parts[k].as_slice(), 1, parts[k].len());
            text::extend_chars(&mut w, rest.as_slice());
            let s = text::string_of(w.as_slice());
            words.push(s);
            proof {
                assert(rest@ =~= parts@[k as int]@.drop_first());
                let f = all.take(k + 1).filter(pred);
                assert(f == all.take(k as int).filter(pred).push(parts@[k as int]@));
                assert(text::strings_view(words@) =~= text::strings_view(before).push(s@));
                assert(f.map_values(|p: Seq<char>| title_word(p)) =~= all.take(k as int).filter(pred).map_values(
                    |p: Seq<char>| title_word(p),
                ).push(title_word(parts@[k as int]@)));
            }
        }
        k = k + 1;
    }
    assert(all.take(all.len() as int) =~= all);
    proof {
        reveal_strlit(" ");
        assert(" "@ =~= seq![' ']);
    }
    text::join_strings(words.as_slice(), " ")
}

/// The picker name of a local model.
pub fn ollama_display_name(slug: &str) -> (r: String)
    ensures
        r@ == ollama_display(slug@),
{
    if text::str_equal(slug, OLLAMA_GEMMA4_MODEL) {
        return String::from_str("Gemma 4 12B");
    }
    let v = text::chars_of(slug);
    proof {
        text::lemma_find_char(v@, ':');
    }
    let vlen = v.len();
    match text::find_char_from(v.as_slice(), ':', 0) {
        Some(i) => {
            proof {
                text::lemma_find_char_unique(v@, ':', i as int);
            }
            let name = text::string_of(text::sub_chars(v.as_slice(), 0, i).as_slice());
            let tag = text::string_of(text::sub_chars(v.as_slice(), i + 1, v.len()).as_slice());
            let mut out = text::chars_of(title_case_model_name(name.as_str()).as_str());
            out.push(' ');
            let up = text::chars_of(upper_str(tag.as_str()).as_str());
            text::extend_chars(&mut out, up.as_slice());
            proof {
                assert(name@ =~= v@.take(i as int));
                assert(tag@ =~= v@.skip(i + 1));
            }
            text::string_of(out.as_slice())
        },
        None => {
            proof {
                if text::find_char(v@, ':') is Some {
                    let k = text::find_char(v@, ':')->0;
                    assert(v@[k] == ':');
                }
            }
            title_case_model_name(slug)
        },
    }
}

/// A local model served by Ollama.
pub fn ollama_model_info(slug: &str) -> (m: ModelInfo)
    ensures
        is_ollama_model(m, slug@),
{
    ModelInfo {
        slug: String::from_str(slug),
        display_name: ollama_display_name(slug),
        description: Some(String::from_str("Local model via Ollama.")),
        supported_reasoning_levels: Vec::new(),
        show_in_picker: true,
        supported_in_api: true,
        priority: 90,
        supports_parallel_tool_calls: false,
        context_window: Some(128_000),
        accepts_images: false,
    }
}

} // verus!
