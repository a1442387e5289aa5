//! The viewer and repository records read from GitHub's GraphQL API.

use vstd::prelude::*;

verus! {

/// The characters of an optional string; empty when absent.
pub open spec fn text_or_blank(s: Option<String>) -> Seq<char> {
    match s {
        Some(t) => t@,
        None => Seq::empty(),
    }
}

fn or_blank(s: Option<String>) -> (res: String)
    ensures
        res@ == text_or_blank(s),
{
    match s {
        Some(t) => t,
        None => String::new(),
    }
}

/// The authenticated viewer.
pub struct ViewerInfo {
    pub id: String,
    pub login: String,
    pub name: Option<String>,
    pub avatar_url: String,
    pub url: String,
}

impl ViewerInfo {
    /// The viewer from the string fields GitHub returned; a missing or
    /// non-string `id`, `login`, `avatarUrl` or `url` reads as empty.
    pub fn from_fields(
        id: Option<String>,
        login: Option<String>,
        name: Option<String>,
        avatar_url: Option<String>,
        url: Option<String>,
    ) -> (res: Self)
        ensures
            res.id@ == text_or_blank(id),
            res.login@ == text_or_blank(login),
            res.name == name,
            res.avatar_url@ == text_or_blank(avatar_url),
            res.url@ == text_or_blank(url),
    {
        ViewerInfo {
            id: or_blank(id),
            login: or_blank(login),
            name,
            avatar_url: or_blank(avatar_url),
            url: or_blank(url),
        }
    }
}

/// One of the viewer's repositories.
pub struct RepoInfo {
    pub id: String,
    pub name_with_owner: String,
    pub owner: Option<String>,
    pub url: String,
    pub is_private: bool,
    pub description: Option<String>,
    pub primary_language: Option<String>,
    pub updated_at: String,
}

impl RepoInfo {
    /// The repository from the fields GitHub returned; missing strings read
    /// as empty and a missing `isPrivate` as `false`.
    pub fn from_fields(
        id: Option<String>,
        name_with_owner: Option<String>,
        owner: Option<String>,
        url: Option<String>,
        is_private: Option<bool>,
        description: Option<String>,
        primary_language: Option<String>,
        updated_at: Option<String>,
    ) -> (res: Self)
        ensures
            res.id@ == text_or_blank(id),
            res.name_with_owner@ == text_or_blank(name_with_owner),
            res.owner == owner,
            res.url@ == text_or_blank(url),
            res.is_private == (is_private == Some(true)),
            res.description == description,
            res.primary_language == primary_language,
            res.updated_at@ == text_or_blank(updated_at),
    {
        RepoInfo {
            id: or_blank(id),
            name_with_owner: or_blank(name_with_owner),
            owner,
            url: or_blank(url),
            is_private: match is_private {
                Some(b) => b,
                None => false,
            },
            description,
            primary_language,
            updated_at: or_blank(updated_at),
        }
    }
}

} // verus!
