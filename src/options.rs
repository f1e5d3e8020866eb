use vstd::prelude::*;

verus! {

/// Selects which information is collected and written as constants.
#[derive(Clone, Copy, Debug, PartialEq, Eq, Structural)]
pub struct Options {
    /// The versions of the compiler and of the documentation generator.
    pub compiler: bool,
    /// The tag or short commit id of the repository's HEAD.
    pub git: bool,
    /// The Continuous Integration platform.
    pub ci: bool,
    /// The package metadata and build settings from the environment.
    pub env: bool,
    /// The resolved dependencies from the lock document.
    pub deps: bool,
    /// The enabled features.
    pub features: bool,
    /// The time of the build.
    pub time: bool,
}

impl Default for Options {
    /// Everything enabled but the dependencies, whose lock document is only
    /// there for the top-level package of a build.
    fn default() -> (r: Options)
        ensures
            r == (Options {
                compiler: true,
                git: true,
                ci: true,
                env: true,
                deps: false,
                features: true,
                time: true,
            }),
    {
        Options {
            compiler: true,
            git: true,
            ci: true,
            env: true,
            deps: false,
            features: true,
            time: true,
        }
    }
}

impl Options {
    /// Enables or disables the compiler and documentation generator versions.
    pub fn set_compiler(&mut self, enabled: bool) -> (r: &mut Self)
        ensures
            *r == (Options { compiler: enabled, ..*old(self) }),
            *final(self) == *final(r),
    {
        self.compiler = enabled;
        self
    }

    /// Enables or disables the repository's tag or commit id.
    pub fn set_git(&mut self, enabled: bool) -> (r: &mut Self)
        ensures
            *r == (Options { git: enabled, ..*old(self) }),
            *final(self) == *final(r),
    {
        self.git = enabled;
        self
    }

    /// Enables or disables the Continuous Integration platform.
    pub fn set_ci(&mut self, enabled: bool) -> (r: &mut Self)
        ensures
            *r == (Options { ci: enabled, ..*old(self) }),
            *final(self) == *final(r),
    {
        self.ci = enabled;
        self
    }

    /// Enables or disables the package metadata and build settings.
    pub fn set_env(&mut self, enabled: bool) -> (r: &mut Self)
        ensures
            *r == (Options { env: enabled, ..*old(self) }),
            *final(self) == *final(r),
    {
        self.env = enabled;
        self
    }

    /// Enables or disables the list of dependencies.
    pub fn set_dependencies(&mut self, enabled: bool) -> (r: &mut Self)
        ensures
            *r == (Options { deps: enabled, ..*old(self) }),
            *final(self) == *final(r),
    {
        self.deps = enabled;
        self
    }

    /// Enables or disables the list of enabled features.
    pub fn set_features(&mut self, enabled: bool) -> (r: &mut Self)
        ensures
            *r == (Options { features: enabled, ..*old(self) }),
            *final(self) == *final(r),
    {
        self.features = enabled;
        self
    }

    /// Enables or disables the time of the build.
    pub fn set_time(&mut self, enabled: bool) -> (r: &mut Self)
        ensures
            *r == (Options { time: enabled, ..*old(self) }),
            *final(self) == *final(r),
    {
        self.time = enabled;
        self
    }
}

} // verus!
