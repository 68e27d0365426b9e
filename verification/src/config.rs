//! Looking up the configured providers and the active prompt template.

use vstd::prelude::*;
use crate::model::{PromptTemplate, ProviderConfig, Settings};
use crate::text::push_str;

verus! {

broadcast use vstd::string::group_string_axioms;

/// The first position in `providers` of a provider with id `id`.
pub open spec fn provider_index(providers: Seq<ProviderConfig>, id: Seq<char>) -> Option<int>
    decreases providers.len(),
{
    if providers.len() == 0 {
        None
    } else {
        match provider_index(providers.drop_last(), id) {
            Some(i) => Some(i),
            None => if providers.last().id@ == id {
                Some(providers.len() - 1)
            } else {
                None
            },
        }
    }
}

/// The first position in `templates` of a template with id `id`.
pub open spec fn template_position(templates: Seq<PromptTemplate>, id: Seq<char>) -> Option<int>
    decreases templates.len(),
{
    if templates.len() == 0 {
        None
    } else {
        match template_position(templates.drop_last(), id) {
            Some(i) => Some(i),
            None => if templates.last().id@ == id {
                Some(templates.len() - 1)
            } else {
                None
            },
        }
    }
}

/// The template in use: the one named active, else the first one.
pub open spec fn template_index(s: Settings) -> Option<int> {
    match template_position(s.templates@, s.active_template_id@) {
        Some(i) => Some(i),
        None => if s.templates@.len() > 0 {
            Some(0)
        } else {
            None
        },
    }
}

/// The error reported when no provider has the id.
pub open spec fn missing_provider_error(id: Seq<char>) -> Seq<char> {
    "找不到供应商配置: "@ + id
}

/// The error reported when there is no template.
pub open spec fn missing_template_error() -> Seq<char> {
    "至少需要一个提示词模板"@
}

proof fn lemma_provider_index_step(providers: Seq<ProviderConfig>, id: Seq<char>, i: int)
    requires
        0 <= i < providers.len(),
        provider_index(providers.take(i), id) is None,
    ensures
        providers.take(i + 1).drop_last() == providers.take(i),
        provider_index(providers.take(i + 1), id) == (if providers[i].id@ == id {
            Some(i)
        } else {
            None::<int>
        }),
{
    assert(providers.take(i + 1).drop_last() == providers.take(i));
}

/// Position of the first provider with id `id`.
pub fn provider_position(providers: &[ProviderConfig], id: &str) -> (r: Option<usize>)
    ensures
        r matches Some(i) ==> provider_index(providers@, id@) == Some(i as int),
        r is None ==> provider_index(providers@, id@) is None,
        r matches Some(i) ==> i < providers@.len(),
{
    let key = String::from_str(id);
    let mut i: usize = 0;
    while i < providers.len()
        invariant
            i <= providers.len(),
            key@ == id@,
            provider_index(providers@.take(i as int), id@) is None,
        decreases providers.len() - i,
    {
        proof {
            lemma_provider_index_step(providers@, id@, i as int);
        }
        if providers[i].id == key {
            proof {
                assert forall|n: int| i + 1 <= n <= providers@.len() implies provider_index(
                    providers@.take(n),
                    id@,
                ) == Some(i as int) by {
                    lemma_provider_prefix(providers@, id@, i as int, n);
                }
                assert(providers@.take(providers@.len() as int) == providers@);
            }
            return Some(i);
        }
        i += 1;
    }
    assert(providers@.take(providers@.len() as int) == providers@);
    None
}

proof fn lemma_provider_prefix(providers: Seq<ProviderConfig>, id: Seq<char>, i: int, n: int)
    requires
        0 <= i < n <= providers.len(),
        provider_index(providers.take(i + 1), id) == Some(i),
    ensures
        provider_index(providers.take(n), id) == Some(i),
    decreases n - i,
{
    if n > i + 1 {
        lemma_provider_prefix(providers, id, i, n - 1);
        assert(providers.take(n).drop_last() == providers.take(n - 1));
    }
}

proof fn lemma_template_prefix(templates: Seq<PromptTemplate>, id: Seq<char>, i: int, n: int)
    requires
        0 <= i < n <= templates.len(),
        template_position(templates.take(i + 1), id) == Some(i),
    ensures
        template_position(templates.take(n), id) == Some(i),
    decreases n - i,
{
    if n > i + 1 {
        lemma_template_prefix(templates, id, i, n - 1);
        assert(templates.take(n).drop_last() == templates.take(n - 1));
    }
}

/// The provider with id `id`: the first one if several share it.
pub fn find_provider<'a>(settings: &'a Settings, id: &str) -> (r: Result<&'a ProviderConfig, String>)
    ensures
        match provider_index(settings.providers@, id@) {
            Some(i) => r matches Ok(p) && *p == settings.providers@[i],
            None => r matches Err(e) && e@ == missing_provider_error(id@),
        },
{
    match provider_position(settings.providers.as_slice(), id) {
        Some(i) => Ok(&settings.providers[i]),
        None => {
            let mut e = String::from_str("找不到供应商配置: ");
            push_str(&mut e, id);
            Err(e)
        },
    }
}

/// Position of the template in use.
pub fn active_template_position(settings: &Settings) -> (r: Option<usize>)
    ensures
        r matches Some(i) ==> template_index(*settings) == Some(i as int) && i
            < settings.templates@.len(),
        r is None ==> template_index(*settings) is None,
{
    let templates = settings.templates.as_slice();
    let mut i: usize = 0;
    while i < templates.len()
        invariant
            i <= templates.len(),
            templates@ == settings.templates@,
            template_position(templates@.take(i as int), settings.active_template_id@) is None,
        decreases templates.len() - i,
    {
        proof {
            assert(templates@.take(i + 1).drop_last() == templates@.take(i as int));
        }
        if templates[i].id == settings.active_template_id {
            proof {
                assert forall|n: int| i + 1 <= n <= templates@.len() implies template_position(
                    templates@.take(n),
                    settings.active_template_id@,
                ) == Some(i as int) by {
                    lemma_template_prefix(templates@, settings.active_template_id@, i as int, n);
                }
                assert(templates@.take(templates@.len() as int) == templates@);
            }
            return Some(i);
        }
        i += 1;
    }
    assert(templates@.take(templates@.len() as int) == templates@);
    if templates.len() > 0 {
        Some(0)
    } else {
        None
    }
}

/// The template in use: the one whose id is the active template id, else the
/// first template.
pub fn find_template(settings: &Settings) -> (r: Result<&PromptTemplate, String>)
    ensures
        match template_index(*settings) {
            Some(i) => r matches Ok(t) && *t == settings.templates@[i],
            None => r matches Err(e) && e@ == missing_template_error(),
        },
{
    match active_template_position(settings) {
        Some(i) => Ok(&settings.templates[i]),
        None => Err(String::from_str("至少需要一个提示词模板")),
    }
}

} // verus!
