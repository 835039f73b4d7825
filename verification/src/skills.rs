//! Skill inventory caching.
//!
//! Discovering skills on disk is the calling layer's work; what is
//! verified here is the cache discipline: a load outcome handed in by the
//! caller is kept, later calls return the kept outcome unchanged unless a
//! reload is forced, and a forced reload replaces the cache with the new
//! outcome.

use vstd::prelude::*;

verus! {

/// What is known of one discovered skill.
pub struct SkillMetadata {
    pub name: String,
    pub description: String,
    pub short_description: String,
    pub path: String,
}

impl View for SkillMetadata {
    type V = (Seq<char>, Seq<char>, Seq<char>, Seq<char>);

    open spec fn view(&self) -> (Seq<char>, Seq<char>, Seq<char>, Seq<char>) {
        (self.name@, self.description@, self.short_description@, self.path@)
    }
}

impl DeepView for SkillMetadata {
    type V = (Seq<char>, Seq<char>, Seq<char>, Seq<char>);

    open spec fn deep_view(&self) -> (Seq<char>, Seq<char>, Seq<char>, Seq<char>) {
        self.view()
    }
}

impl Clone for SkillMetadata {
    fn clone(&self) -> (r: Self)
        ensures
            r@ == self@,
    {
        SkillMetadata {
            name: self.name.clone(),
            description: self.description.clone(),
            short_description: self.short_description.clone(),
            path: self.path.clone(),
        }
    }
}

/// One discovery pass over the skill roots: the skills found and the
/// problems met on the way.
pub struct SkillLoadOutcome {
    pub skills: Vec<SkillMetadata>,
    pub errors: Vec<String>,
}

impl View for SkillLoadOutcome {
    type V = (Seq<(Seq<char>, Seq<char>, Seq<char>, Seq<char>)>, Seq<Seq<char>>);

    open spec fn view(&self) -> (
        Seq<(Seq<char>, Seq<char>, Seq<char>, Seq<char>)>,
        Seq<Seq<char>>,
    ) {
        (self.skills.deep_view(), self.errors.deep_view())
    }
}

impl DeepView for SkillLoadOutcome {
    type V = (Seq<(Seq<char>, Seq<char>, Seq<char>, Seq<char>)>, Seq<Seq<char>>);

    open spec fn deep_view(&self) -> (
        Seq<(Seq<char>, Seq<char>, Seq<char>, Seq<char>)>,
        Seq<Seq<char>>,
    ) {
        self.view()
    }
}

impl Clone for SkillLoadOutcome {
    fn clone(&self) -> (r: Self)
        ensures
            r@ == self@,
    {
        let r = SkillLoadOutcome { skills: self.skills.clone(), errors: self.errors.clone() };
        proof {
            assert(r.skills.deep_view() =~~= self.skills.deep_view());
            assert(r.errors.deep_view() =~~= self.errors.deep_view());
        }
        r
    }
}

/// Keeps the home directory the skills belong to and the most recent
/// load outcome.
pub struct SkillsManager {
    codex_home: String,
    cache: Option<SkillLoadOutcome>,
}

impl View for SkillsManager {
    type V = (
        Seq<char>,
        Option<(Seq<(Seq<char>, Seq<char>, Seq<char>, Seq<char>)>, Seq<Seq<char>>)>,
    );

    closed spec fn view(&self) -> (
        Seq<char>,
        Option<(Seq<(Seq<char>, Seq<char>, Seq<char>, Seq<char>)>, Seq<Seq<char>>)>,
    ) {
        (self.codex_home@, self.cache.deep_view())
    }
}

impl SkillsManager {
    /// A manager for `codex_home` with nothing cached yet.
    pub fn new(codex_home: String) -> (r: Self)
        ensures
            r@.0 == codex_home@,
            r@.1 is None,
    {
        SkillsManager { codex_home, cache: None }
    }

    /// The current skills, with `loaded` the outcome of a fresh
    /// discovery pass the caller ran: returns the cached outcome when
    /// one is kept, otherwise keeps and returns `loaded`.
    pub fn skills(&mut self, loaded: SkillLoadOutcome) -> (r: SkillLoadOutcome)
        ensures
            old(self)@.1 is Some ==> r@ == old(self)@.1->0 && final(self)@ == old(self)@,
            old(self)@.1 is None ==> r@ == loaded@ && final(self)@ == (
                old(self)@.0,
                Some(loaded@),
            ),
    {
        self.skills_with_options(false, loaded)
    }

    /// The current skills, reloading on demand: when `force_reload` is
    /// false and an outcome is cached, that outcome comes back and the
    /// cache is untouched; otherwise `loaded` replaces the cache and
    /// comes back.
    pub fn skills_with_options(&mut self, force_reload: bool, loaded: SkillLoadOutcome) -> (r:
        SkillLoadOutcome)
        ensures
            !force_reload && old(self)@.1 is Some ==> r@ == old(self)@.1->0 && final(self)@
                == old(self)@,
            force_reload || old(self)@.1 is None ==> r@ == loaded@ && final(self)@ == (
                old(self)@.0,
                Some(loaded@),
            ),
    {
        if !force_reload {
            match &self.cache {
                Some(c) => {
                    return c.clone();
                },
                None => {},
            }
        }
        let r = loaded.clone();
        self.cache = Some(loaded);
        r
    }
}

} // verus!
