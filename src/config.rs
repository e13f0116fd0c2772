use vstd::prelude::*;
use crate::delivery::AgentIdentity;

verus! {

/// The agent's persisted settings: its identity, what it watches, and where
/// the ingestion service lives.
#[derive(Clone, Debug)]
pub struct AgentConfig {
    pub agent_id: String,
    pub api_key: String,
    pub host_id: String,
    pub account_id: String,
    pub watch_paths: Vec<String>,
    pub siem_url: String,
}

/// What one answer to the watch-path prompt leads to.
#[derive(Clone, Copy, Debug, PartialEq, Eq, Structural)]
pub enum PromptStep {
    /// The answer was the word `done`: the list is complete.
    Finished,
    /// The answer named an existing path, which was added.
    Added,
    /// The answer named no existing path; nothing was added.
    Missing,
}

/// The views of the strings of `v`.
pub open spec fn strings_view(v: Seq<String>) -> Seq<Seq<char>> {
    v.map_values(|s: String| s@)
}

/// `s` without any element equal to `p`, the others in order.
pub open spec fn without(s: Seq<Seq<char>>, p: Seq<char>) -> Seq<Seq<char>>
    decreases s.len(),
{
    if s.len() == 0 {
        s
    } else if s.last() == p {
        without(s.drop_last(), p)
    } else {
        without(s.drop_last(), p).push(s.last())
    }
}

/// `s` is the word `done`, in any mix of upper and lower case.
pub open spec fn is_done_text(s: Seq<char>) -> bool {
    &&& s.len() == 4
    &&& (s[0] == 'd' || s[0] == 'D')
    &&& (s[1] == 'o' || s[1] == 'O')
    &&& (s[2] == 'n' || s[2] == 'N')
    &&& (s[3] == 'e' || s[3] == 'E')
}

/// The ingestion URL used when none is given.
pub open spec fn default_url() -> Seq<char> {
    "http://localhost:4200"@
}

/// Whether an answer to the watch-path prompt ends the list.
pub fn is_done_word(s: &str) -> (r: bool)
    ensures
        r == is_done_text(s@),
{
    if s.unicode_len() != 4 {
        return false;
    }
    let a = s.get_char(0);
    let b = s.get_char(1);
    let c = s.get_char(2);
    let d = s.get_char(3);
    (a == 'd' || a == 'D') && (b == 'o' || b == 'O') && (c == 'n' || c == 'N') && (d == 'e' || d
        == 'E')
}

/// Takes one answer to the watch-path prompt into `paths`. `exists` tells
/// whether the answer names an existing path.
pub fn take_watch_path_answer(paths: &mut Vec<String>, answer: String, exists: bool) -> (r:
    PromptStep)
    ensures
        is_done_text(answer@) ==> r == PromptStep::Finished && final(paths)@ == old(paths)@,
        !is_done_text(answer@) && exists ==> r == PromptStep::Added && final(paths)@ == old(
            paths,
        )@.push(answer),
        !is_done_text(answer@) && !exists ==> r == PromptStep::Missing && final(paths)@ == old(
            paths,
        )@,
{
    if is_done_word(answer.as_str()) {
        PromptStep::Finished
    } else if exists {
        paths.push(answer);
        PromptStep::Added
    } else {
        PromptStep::Missing
    }
}

/// The ingestion URL from the first-run prompt: the default when the answer
/// is empty.
pub fn url_or_default(answer: String) -> (r: String)
    ensures
        answer@.len() == 0 ==> r@ == default_url(),
        answer@.len() > 0 ==> r@ == answer@,
{
    if answer.as_str().unicode_len() == 0 {
        String::from_str("http://localhost:4200")
    } else {
        answer
    }
}

impl AgentConfig {
    /// The settings of a freshly registered agent.
    pub fn from_identity(identity: AgentIdentity, watch_paths: Vec<String>, siem_url: String) -> (r:
        AgentConfig)
        ensures
            r.agent_id@ == identity.agent_id@,
            r.api_key@ == identity.api_key@,
            r.host_id@ == identity.host_id@,
            r.account_id@ == identity.account_id@,
            r.watch_paths@ == watch_paths@,
            r.siem_url@ == siem_url@,
    {
        AgentConfig {
            agent_id: identity.agent_id,
            api_key: identity.api_key,
            host_id: identity.host_id,
            account_id: identity.account_id,
            watch_paths,
            siem_url,
        }
    }

    /// The identity that the settings hold.
    pub fn identity(&self) -> (r: AgentIdentity)
        ensures
            r.agent_id@ == self.agent_id@,
            r.api_key@ == self.api_key@,
            r.host_id@ == self.host_id@,
            r.account_id@ == self.account_id@,
    {
        AgentIdentity {
            agent_id: self.agent_id.clone(),
            api_key: self.api_key.clone(),
            host_id: self.host_id.clone(),
            account_id: self.account_id.clone(),
        }
    }

    /// Adds `path` to the watched paths when it exists; says whether it did.
    pub fn add_path(&mut self, path: String, exists: bool) -> (r: bool)
        ensures
            r == exists,
            exists ==> final(self).watch_paths@ == old(self).watch_paths@.push(path),
            !exists ==> final(self).watch_paths@ == old(self).watch_paths@,
            final(self).agent_id == old(self).agent_id,
            final(self).api_key == old(self).api_key,
            final(self).host_id == old(self).host_id,
            final(self).account_id == old(self).account_id,
            final(self).siem_url == old(self).siem_url,
    {
        if exists {
            self.watch_paths.push(path);
        }
        exists
    }

    /// Removes every watched path equal to `path`, keeping the others in order.
    pub fn remove_path(&mut self, path: &String)
        ensures
            strings_view(final(self).watch_paths@) == without(
                strings_view(old(self).watch_paths@),
                path@,
            ),
            final(self).agent_id == old(self).agent_id,
            final(self).api_key == old(self).api_key,
            final(self).host_id == old(self).host_id,
            final(self).account_id == old(self).account_id,
            final(self).siem_url == old(self).siem_url,
    {
        let mut kept: Vec<String> = Vec::new();
        let mut i: usize = 0;
        while i < self.watch_paths.len()
            invariant
                i <= self.watch_paths@.len(),
                strings_view(kept@) == without(
                    strings_view(self.watch_paths@.subrange(0, i as int)),
                    path@,
                ),
            decreases self.watch_paths@.len() - i,
        {
            let ghost before = kept@;
            let p = self.watch_paths[i].clone();
            let keep = p != *path;
            if keep {
                kept.push(p);
            }
            proof {
                let prev = strings_view(self.watch_paths@.subrange(0, i as int));
                let next = strings_view(self.watch_paths@.subrange(0, i + 1));
                assert(next.drop_last() =~= prev);
                assert(next.last() == self.watch_paths@[i as int]@);
                if keep {
                    assert(strings_view(kept@) =~= strings_view(before).push(
                        self.watch_paths@[i as int]@,
                    ));
                } else {
                    assert(kept@ == before);
                }
            }
            i = i + 1;
        }
        assert(self.watch_paths@.subrange(0, self.watch_paths@.len() as int) =~= self.watch_paths@);
        self.watch_paths = kept;
    }

    /// Replaces the ingestion URL.
    pub fn set_url(&mut self, url: String)
        ensures
            final(self).siem_url == url,
            final(self).watch_paths == old(self).watch_paths,
            final(self).agent_id == old(self).agent_id,
            final(self).api_key == old(self).api_key,
            final(self).host_id == old(self).host_id,
            final(self).account_id == old(self).account_id,
    {
        self.siem_url = url;
    }
}

} // verus!
