//! Virtual paths: the provider-prefixed strings by which projects and
//! sessions are addressed, `{provider}://{id}` and
//! `{provider}://{project}/{session}`.
//!
//! Decoding validates what it hands out: nothing that fails validation is
//! ever returned as an identifier.

use vstd::prelude::*;
use vstd::string::*;
use crate::error::{ErrorModel, ProviderError};
use crate::ident::{is_safe_storage_id, is_valid_uuid, safe_id_char, safe_storage_id, valid_uuid};
use crate::model::Provider;
use crate::text::{after, chars_of, joined, find_char, has_prefix, strip_prefix};

verus! {

/// The prefix of every virtual path of a provider: its tag and `://`.
pub open spec fn scheme(provider: Provider) -> Seq<char> {
    provider.tag_text() + "://"@
}

/// The virtual path of `id`.
pub open spec fn encoded(provider: Provider, id: Seq<char>) -> Seq<char> {
    scheme(provider) + id
}

/// The virtual path of a session within a project.
pub open spec fn encoded_pair(provider: Provider, project: Seq<char>, session: Seq<char>) -> Seq<
    char,
> {
    scheme(provider) + project + seq!['/'] + session
}

/// A path without the provider's prefix; a path that does not begin with the
/// prefix stands for itself.
pub open spec fn bare(path: Seq<char>, provider: Provider) -> Seq<char> {
    if has_prefix(path, scheme(provider)) {
        after(path, scheme(provider).len())
    } else {
        path
    }
}

/// The index of the first `c` in `s`.
pub open spec fn index_of(s: Seq<char>, c: char) -> Option<int>
    decreases s.len(),
{
    if s.len() == 0 {
        None
    } else if s[0] == c {
        Some(0)
    } else {
        match index_of(s.drop_first(), c) {
            Some(i) => Some(i + 1),
            None => None,
        }
    }
}

/// `index_of` gives the least index that holds `c`, and `None` exactly where
/// `c` does not occur.
pub proof fn lemma_index_of(s: Seq<char>, c: char)
    ensures
        match index_of(s, c) {
            Some(i) => 0 <= i < s.len() && s[i] == c && forall|j: int| 0 <= j < i ==> s[j] != c,
            None => forall|j: int| 0 <= j < s.len() ==> s[j] != c,
        },
    decreases s.len(),
{
    if s.len() > 0 && s[0] != c {
        let rest = s.drop_first();
        lemma_index_of(rest, c);
        match index_of(rest, c) {
            Some(i) => {
                assert forall|j: int| 0 <= j < i + 1 implies s[j] != c by {
                    if j > 0 {
                        assert(rest[j - 1] == s[j]);
                    }
                }
                assert(rest[i] == s[i + 1]);
            },
            None => {
                assert forall|j: int| 0 <= j < s.len() implies s[j] != c by {
                    if j > 0 {
                        assert(rest[j - 1] == s[j]);
                    }
                }
            },
        }
    }
}

/// The two parts of `s` around its first `/`.
pub open spec fn split_pair(s: Seq<char>) -> Option<(Seq<char>, Seq<char>)> {
    match index_of(s, '/') {
        Some(i) => Some((s.take(i), s.skip(i + 1))),
        None => None,
    }
}

/// What decoding a virtual path gives: the identifier, or the error for an
/// identifier that fails validation. The message of the error is `label`
/// followed by the text that was rejected.
pub open spec fn checked(id: Seq<char>, valid: bool, label: Seq<char>) -> Result<
    Seq<char>,
    ErrorModel,
> {
    if valid {
        Ok(id)
    } else {
        Err(ErrorModel::InvalidIdentifier(label + id))
    }
}

/// The storage identifier that a virtual path addresses.
pub open spec fn decoded_storage_id(path: Seq<char>, provider: Provider, label: Seq<char>) -> Result<
    Seq<char>,
    ErrorModel,
> {
    checked(bare(path, provider), safe_storage_id(bare(path, provider)), label)
}

/// The UUID that a virtual path addresses.
pub open spec fn decoded_uuid(path: Seq<char>, provider: Provider, label: Seq<char>) -> Result<
    Seq<char>,
    ErrorModel,
> {
    checked(bare(path, provider), valid_uuid(bare(path, provider)), label)
}

/// The project and the session that a two-part virtual path addresses. Both
/// must be safe storage identifiers; the error holds the path as it was
/// given.
pub open spec fn decoded_pair(path: Seq<char>, provider: Provider, label: Seq<char>) -> Result<
    (Seq<char>, Seq<char>),
    ErrorModel,
> {
    match split_pair(bare(path, provider)) {
        Some((project, session)) => if safe_storage_id(project) && safe_storage_id(session) {
            Ok((project, session))
        } else {
            Err(ErrorModel::InvalidIdentifier(label + path))
        },
        None => Err(ErrorModel::InvalidIdentifier(label + path)),
    }
}

/// The view of a decoded identifier.
pub open spec fn id_view(r: Result<String, ProviderError>) -> Result<Seq<char>, ErrorModel> {
    match r {
        Ok(id) => Ok(id@),
        Err(e) => Err(e@),
    }
}

/// The view of a decoded pair of identifiers.
pub open spec fn pair_view(r: Result<(String, String), ProviderError>) -> Result<
    (Seq<char>, Seq<char>),
    ErrorModel,
> {
    match r {
        Ok((project, session)) => Ok((project@, session@)),
        Err(e) => Err(e@),
    }
}

fn scheme_string(provider: Provider) -> (r: String)
    ensures
        r@ == scheme(provider),
{
    joined(provider.tag(), "://")
}

/// The virtual path of `id` with `provider`.
pub fn encode(provider: Provider, id: &str) -> (r: String)
    ensures
        r@ == encoded(provider, id@),
{
    let mut path = scheme_string(provider);
    path.append(id);
    path
}

/// The virtual path of the session `session` of the project `project`.
pub fn encode_pair(provider: Provider, project: &str, session: &str) -> (r: String)
    ensures
        r@ == encoded_pair(provider, project@, session@),
{
    let mut path = scheme_string(provider);
    path.append(project);
    path.append("/");
    path.append(session);
    proof {
        reveal_strlit("/");
        assert("/"@ =~= seq!['/']);
    }
    path
}

/// Removes the provider's prefix from `path`, where it has one.
pub fn strip_scheme<'a>(provider: Provider, path: &'a str) -> (r: &'a str)
    ensures
        r@ == bare(path@, provider),
{
    let prefix = scheme_string(provider);
    match strip_prefix(path, prefix.as_str()) {
        Some(rest) => rest,
        None => path,
    }
}

/// Decodes the virtual path of something that is kept under a storage
/// identifier. `label` begins the message of the error.
pub fn decode_storage_id(provider: Provider, path: &str, label: &str) -> (r: Result<
    String,
    ProviderError,
>)
    ensures
        id_view(r) == decoded_storage_id(path@, provider, label@),
{
    let id = strip_scheme(provider, path);
    if is_safe_storage_id(id) {
        Ok(String::from_str(id))
    } else {
        Err(ProviderError::InvalidIdentifier(joined(label, id)))
    }
}

/// Decodes the virtual path of something that is kept under a UUID. `label`
/// begins the message of the error.
pub fn decode_uuid(provider: Provider, path: &str, label: &str) -> (r: Result<String, ProviderError>)
    ensures
        id_view(r) == decoded_uuid(path@, provider, label@),
{
    let id = strip_scheme(provider, path);
    if is_valid_uuid(id) {
        Ok(String::from_str(id))
    } else {
        Err(ProviderError::InvalidIdentifier(joined(label, id)))
    }
}

/// Decodes the virtual path of a session within a project. `label` begins
/// the message of the error.
pub fn decode_pair(provider: Provider, path: &str, label: &str) -> (r: Result<
    (String, String),
    ProviderError,
>)
    ensures
        pair_view(r) == decoded_pair(path@, provider, label@),
{
    let rest = strip_scheme(provider, path);
    let chars = chars_of(rest);
    proof {
        lemma_index_of(rest@, '/');
    }
    match find_char(&chars, '/') {
        Some(i) => {
            assert(index_of(rest@, '/') == Some(i as int));
            let project = rest.substring_char(0, i);
            let session = rest.substring_char(i + 1, chars.len());
            assert(project@ =~= rest@.take(i as int));
            assert(session@ =~= rest@.skip(i + 1));
            if is_safe_storage_id(project) && is_safe_storage_id(session) {
                Ok((String::from_str(project), String::from_str(session)))
            } else {
                Err(ProviderError::InvalidIdentifier(joined(label, path)))
            }
        },
        None => {
            assert(index_of(rest@, '/') is None);
            Err(ProviderError::InvalidIdentifier(joined(label, path)))
        },
    }
}

/// Whatever decoding hands out has passed validation: a storage identifier
/// and both parts of a pair are safe storage identifiers, a UUID is in
/// canonical form.
pub proof fn lemma_decoded_is_valid(path: Seq<char>, provider: Provider, label: Seq<char>)
    ensures
        decoded_storage_id(path, provider, label) matches Ok(id) ==> safe_storage_id(id),
        decoded_uuid(path, provider, label) matches Ok(id) ==> valid_uuid(id),
        decoded_pair(path, provider, label) matches Ok(pair) ==> safe_storage_id(pair.0)
            && safe_storage_id(pair.1),
{
}

/// Without its prefix, the virtual path of `id` is `id` again, whatever `id`
/// holds.
pub proof fn lemma_bare_of_encoded(provider: Provider, id: Seq<char>)
    ensures
        bare(encoded(provider, id), provider) == id,
{
    let p = scheme(provider);
    assert((p + id).subrange(0, p.len() as int) =~= p);
    assert((p + id).subrange(p.len() as int, (p + id).len() as int) =~= id);
}

/// Different identifiers have different virtual paths.
pub proof fn lemma_encoded_is_injective(provider: Provider, a: Seq<char>, b: Seq<char>)
    requires
        encoded(provider, a) == encoded(provider, b),
    ensures
        a == b,
{
    lemma_bare_of_encoded(provider, a);
    lemma_bare_of_encoded(provider, b);
}

/// Decoding the virtual path of a safe storage identifier gives that
/// identifier back.
pub proof fn lemma_storage_id_round_trip(provider: Provider, id: Seq<char>, label: Seq<char>)
    requires
        safe_storage_id(id),
    ensures
        decoded_storage_id(encoded(provider, id), provider, label) == Ok::<Seq<char>, ErrorModel>(
            id,
        ),
{
    lemma_bare_of_encoded(provider, id);
}

/// Decoding the virtual path of a canonical UUID gives that UUID back.
pub proof fn lemma_uuid_round_trip(provider: Provider, id: Seq<char>, label: Seq<char>)
    requires
        valid_uuid(id),
    ensures
        decoded_uuid(encoded(provider, id), provider, label) == Ok::<Seq<char>, ErrorModel>(id),
{
    lemma_bare_of_encoded(provider, id);
}

/// Decoding the virtual path of a session within a project gives both
/// identifiers back, where both are safe storage identifiers.
pub proof fn lemma_pair_round_trip(
    provider: Provider,
    project: Seq<char>,
    session: Seq<char>,
    label: Seq<char>,
)
    requires
        safe_storage_id(project),
        safe_storage_id(session),
    ensures
        decoded_pair(encoded_pair(provider, project, session), provider, label) == Ok::<
            (Seq<char>, Seq<char>),
            ErrorModel,
        >((project, session)),
{
    let joined = project + seq!['/'] + session;
    assert(encoded_pair(provider, project, session) =~= encoded(provider, joined));
    lemma_bare_of_encoded(provider, joined);
    lemma_index_of(joined, '/');
    assert(joined[project.len() as int] == '/');
    assert forall|j: int| 0 <= j < project.len() implies joined[j] != '/' by {
        assert(joined[j] == project[j]);
        assert(safe_id_char(project[j]));
    }
    assert(index_of(joined, '/') == Some(project.len() as int));
    assert(joined.take(project.len() as int) =~= project);
    assert(joined.skip(project.len() as int + 1) =~= session);
}

} // verus!
