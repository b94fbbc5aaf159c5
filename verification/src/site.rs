//! Sites of the sister projects and the wiki identifiers derived from them.

use crate::text::str_eq;
use vstd::prelude::*;
use vstd::string::StrSliceExecFns;
use vstd::string::StringExecFns;

verus! {

/// One row of the `sites` table: a wiki of some sister project.
#[derive(Debug, Clone)]
pub struct Site {
    pub id: usize,
    pub grok_code: Option<String>,
    pub server: Option<String>,
    pub giu_code: Option<String>,
    pub project: Option<String>,
    pub language: Option<String>,
    pub name: Option<String>,
}

impl Site {
    pub fn new(
        id: usize,
        grok_code: Option<String>,
        server: Option<String>,
        giu_code: Option<String>,
        project: Option<String>,
        language: Option<String>,
        name: Option<String>,
    ) -> (r: Self)
        ensures
            r.id == id,
            r.grok_code == grok_code,
            r.server == server,
            r.giu_code == giu_code,
            r.project == project,
            r.language == language,
            r.name == name,
    {
        Self { id, grok_code, server, giu_code, project, language, name }
    }

    pub fn id(&self) -> (r: usize)
        ensures
            r == self.id,
    {
        self.id
    }

    pub fn grok_code(&self) -> (r: &Option<String>)
        ensures
            r == &self.grok_code,
    {
        &self.grok_code
    }

    pub fn server(&self) -> (r: &Option<String>)
        ensures
            r == &self.server,
    {
        &self.server
    }

    pub fn giu_code(&self) -> (r: &Option<String>)
        ensures
            r == &self.giu_code,
    {
        &self.giu_code
    }

    pub fn project(&self) -> (r: &Option<String>)
        ensures
            r == &self.project,
    {
        &self.project
    }

    pub fn language(&self) -> (r: &Option<String>)
        ensures
            r == &self.language,
    {
        &self.language
    }

    pub fn name(&self) -> (r: &Option<String>)
        ensures
            r == &self.name,
    {
        &self.name
    }

    /// The wiki identifier this site derives, when language and project are
    /// both known.
    pub open spec fn spec_wiki(&self) -> Option<Seq<char>> {
        spec_site2wiki(
            match self.language {
                Some(ref l) => Some(l@),
                None => None,
            },
            match self.project {
                Some(ref p) => Some(p@),
                None => None,
            },
        )
    }
}

/// The derived wiki identifier: `commonswiki` for the commons language,
/// `{language}wiki` on the wikipedia project, `{language}{project}`
/// otherwise; none when language or project is missing.
pub open spec fn spec_site2wiki(language: Option<Seq<char>>, project: Option<Seq<char>>) -> Option<
    Seq<char>,
> {
    match (language, project) {
        (Some(l), Some(p)) => if l == "commons"@ {
            Some("commonswiki"@)
        } else if p == "wikipedia"@ {
            Some(l + "wiki"@)
        } else {
            Some(l + p)
        },
        _ => None,
    }
}

/// Derives the wiki identifier of a site.
pub fn site2wiki(site: &Site) -> (r: Option<String>)
    ensures
        match r {
            Some(w) => site.spec_wiki() matches Some(s) && w@ == s,
            None => site.spec_wiki() is None,
        },
{
    let (language, project) = match (&site.language, &site.project) {
        (Some(l), Some(p)) => (l, p),
        _ => { return None },
    };
    if str_eq(language.as_str(), "commons") {
        Some("commonswiki".to_owned())
    } else if str_eq(project.as_str(), "wikipedia") {
        let mut w = language.clone();
        w.append("wiki");
        Some(w)
    } else {
        let mut w = language.clone();
        w.append(project.as_str());
        Some(w)
    }
}

/// Whether the characters `wik` stand at position `i` of `w`, leaving a
/// non-empty language part before and at least one character after them.
pub open spec fn wik_split_at(w: Seq<char>, i: int) -> bool {
    1 <= i <= w.len() - 4 && w[i] == 'w' && w[i + 1] == 'i' && w[i + 2] == 'k'
}

/// The rightmost split position at or below `j`, if any.
pub open spec fn last_wik_split_from(w: Seq<char>, j: int) -> Option<int>
    decreases
            (if j >= 0 {
                j + 1
            } else {
                0
            }),
{
    if j < 1 {
        None
    } else if wik_split_at(w, j) {
        Some(j)
    } else {
        last_wik_split_from(w, j - 1)
    }
}

/// The web server that hosts a wiki, derived from the wiki identifier:
/// the central data, media and species wikis map to their own hosts; an
/// identifier ending in `wiki` is a wikipedia; any other identifier is cut
/// before the rightmost occurrence of `wik` into language and project;
/// identifiers that fit none of these map to nothing. The derivation goes
/// by the identifier's shape alone: an identifier of a recognized shape
/// that names no live wiki still maps to a host name, and the request sent
/// there simply fails.
pub open spec fn spec_webserver_for_wiki(w: Seq<char>) -> Option<Seq<char>> {
    if w == "wikidatawiki"@ {
        Some("www.wikidata.org"@)
    } else if w == "commonswiki"@ {
        Some("commons.wikimedia.org"@)
    } else if w == "specieswiki"@ {
        Some("species.wikimedia.org"@)
    } else if w.len() > 4 && w.skip(w.len() - 4) == "wiki"@ {
        Some(w.take(w.len() - 4) + ".wikipedia.org"@)
    } else {
        match last_wik_split_from(w, w.len() - 4) {
            Some(i) => Some(w.take(i) + seq!['.'] + w.skip(i) + ".org"@),
            None => None,
        }
    }
}

/// The web server that hosts the wiki, or nothing for an identifier in no
/// recognized shape.
pub fn get_webserver_for_wiki(wiki: &str) -> (r: Option<String>)
    ensures
        match r {
            Some(s) => spec_webserver_for_wiki(wiki@) matches Some(w) && s@ == w,
            None => spec_webserver_for_wiki(wiki@) is None,
        },
{
    if str_eq(wiki, "wikidatawiki") {
        return Some("www.wikidata.org".to_owned());
    }
    if str_eq(wiki, "commonswiki") {
        return Some("commons.wikimedia.org".to_owned());
    }
    if str_eq(wiki, "specieswiki") {
        return Some("species.wikimedia.org".to_owned());
    }
    let n = wiki.unicode_len();
    if n > 4 {
        let tail = wiki.substring_char(n - 4, n);
        if str_eq(tail, "wiki") {
            let mut s = wiki.substring_char(0, n - 4).to_owned();
            s.append(".wikipedia.org");
            proof {
                assert(s@ =~= wiki@.take(n - 4) + ".wikipedia.org"@);
            }
            return Some(s);
        }
    }
    if n < 5 {
        return None;
    }
    proof {
        assert(wiki@.skip(n - 4 as int) =~= wiki@.subrange(n - 4 as int, n as int));
    }
    let mut j: usize = n - 4;
    loop
        invariant
            1 <= j <= n - 4,
            n == wiki@.len(),
            n > 4,
            wiki@ != "wikidatawiki"@,
            wiki@ != "commonswiki"@,
            wiki@ != "specieswiki"@,
            wiki@.skip(n - 4 as int) != "wiki"@,
            last_wik_split_from(wiki@, n - 4 as int) == last_wik_split_from(wiki@, j as int),
        decreases j,
    {
        let c0 = wiki.get_char(j);
        let c1 = wiki.get_char(j + 1);
        let c2 = wiki.get_char(j + 2);
        if c0 == 'w' && c1 == 'i' && c2 == 'k' {
            proof {
                assert(wik_split_at(wiki@, j as int));
                assert(last_wik_split_from(wiki@, j as int) == Some(j as int));
            }
            let mut s = wiki.substring_char(0, j).to_owned();
            s.append(".");
            let rest = wiki.substring_char(j, n);
            s.append(rest);
            s.append(".org");
            proof {
                reveal_strlit(".");
                assert("."@ =~= seq!['.']);
                assert(s@ =~= wiki@.take(j as int) + seq!['.'] + wiki@.skip(j as int) + ".org"@);
            }
            return Some(s);
        }
        proof {
            assert(!wik_split_at(wiki@, j as int));
        }
        if j == 1 {
            proof {
                assert(last_wik_split_from(wiki@, 0) is None);
                assert(last_wik_split_from(wiki@, 1) is None);
            }
            return None;
        }
        j -= 1;
    }
}

} // verus!
