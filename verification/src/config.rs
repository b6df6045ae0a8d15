//! The five configuration values of a run and their validation.

use vstd::prelude::*;

verus! {

/// Why a configuration cannot be run.
#[derive(Clone, Copy, Debug, PartialEq, Eq, Structural)]
pub enum ConfigError {
    /// The total number of ideas is zero.
    NoIdeas,
    /// The number of idea producers is zero.
    NoIdeaGenerators,
    /// The total number of packages is zero.
    NoPackages,
    /// The number of package producers is zero.
    NoPackageGenerators,
    /// The number of students is zero.
    NoStudents,
    /// There are fewer ideas than idea producers, so that a producer would
    /// be left without an idea to give its packages to.
    IdleIdeaGenerator,
    /// A total was to be split among zero workers.
    NoWorkers,
}

/// The configuration of one run.
#[derive(Clone, Copy, Debug, PartialEq, Eq, Structural)]
pub struct Args {
    /// Total number of ideas to generate.
    pub num_ideas: usize,
    /// Number of idea producers.
    pub num_idea_gen: usize,
    /// Total number of packages to generate.
    pub num_pkgs: usize,
    /// Number of package producers.
    pub num_pkg_gen: usize,
    /// Number of students, the consumers.
    pub num_students: usize,
}

impl Args {
    /// The first value, in declaration order, that is zero, if any; else
    /// that there are fewer ideas than idea producers, if so.
    pub open spec fn first_fault(self) -> Option<ConfigError> {
        if self.num_ideas == 0 {
            Some(ConfigError::NoIdeas)
        } else if self.num_idea_gen == 0 {
            Some(ConfigError::NoIdeaGenerators)
        } else if self.num_pkgs == 0 {
            Some(ConfigError::NoPackages)
        } else if self.num_pkg_gen == 0 {
            Some(ConfigError::NoPackageGenerators)
        } else if self.num_students == 0 {
            Some(ConfigError::NoStudents)
        } else if self.num_ideas < self.num_idea_gen {
            Some(ConfigError::IdleIdeaGenerator)
        } else {
            None
        }
    }

    /// A configuration is valid when all five values are positive and every
    /// idea producer has an idea to generate.
    pub open spec fn valid(self) -> bool {
        &&& self.num_ideas > 0
        &&& self.num_idea_gen > 0
        &&& self.num_pkgs > 0
        &&& self.num_pkg_gen > 0
        &&& self.num_students > 0
        &&& self.num_ideas >= self.num_idea_gen
    }

    /// Accepts exactly the valid configurations, and names the first fault of the others.
    pub fn validate(&self) -> (outcome: Result<(), ConfigError>)
        ensures
            outcome is Ok <==> self.valid(),
            outcome matches Err(fault) ==> self.first_fault() == Some(fault),
    {
        if self.num_ideas == 0 {
            Err(ConfigError::NoIdeas)
        } else if self.num_idea_gen == 0 {
            Err(ConfigError::NoIdeaGenerators)
        } else if self.num_pkgs == 0 {
            Err(ConfigError::NoPackages)
        } else if self.num_pkg_gen == 0 {
            Err(ConfigError::NoPackageGenerators)
        } else if self.num_students == 0 {
            Err(ConfigError::NoStudents)
        } else if self.num_ideas < self.num_idea_gen {
            Err(ConfigError::IdleIdeaGenerator)
        } else {
            Ok(())
        }
    }
}

} // verus!
