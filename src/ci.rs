use vstd::prelude::*;

use crate::env::EnvironmentMap;

verus! {

/// Continuous Integration platforms whose presence can be detected.
#[derive(Clone, Copy, Debug, PartialEq, Eq, Structural)]
pub enum CIPlatform {
    /// https://travis-ci.org
    Travis,
    /// https://circleci.com
    Circle,
    /// https://about.gitlab.com/gitlab-ci/
    GitLab,
    /// https://www.appveyor.com/
    AppVeyor,
    /// https://codeship.com/
    Codeship,
    /// https://github.com/drone/drone
    Drone,
    /// https://magnum-ci.com/
    Magnum,
    /// https://semaphoreci.com/
    Semaphore,
    /// https://jenkins.io/
    Jenkins,
    /// https://www.atlassian.com/software/bamboo
    Bamboo,
    /// https://www.visualstudio.com/de/tfs/
    TFS,
    /// https://www.jetbrains.com/teamcity/
    TeamCity,
    /// https://buildkite.com/
    Buildkite,
    /// http://hudson-ci.org/
    Hudson,
    /// https://github.com/taskcluster
    TaskCluster,
    /// https://www.gocd.io/
    GoCD,
    /// https://bitbucket.org
    BitBucket,
    /// Unspecific
    Generic,
}

/// The human-readable name of a platform.
pub open spec fn platform_name(p: CIPlatform) -> Seq<char> {
    match p {
        CIPlatform::Travis => "Travis CI"@,
        CIPlatform::Circle => "CircleCI"@,
        CIPlatform::GitLab => "GitLab"@,
        CIPlatform::AppVeyor => "AppVeyor"@,
        CIPlatform::Codeship => "CodeShip"@,
        CIPlatform::Drone => "Drone"@,
        CIPlatform::Magnum => "Magnum"@,
        CIPlatform::Semaphore => "Semaphore"@,
        CIPlatform::Jenkins => "Jenkins"@,
        CIPlatform::Bamboo => "Bamboo"@,
        CIPlatform::TFS => "Team Foundation Server"@,
        CIPlatform::TeamCity => "TeamCity"@,
        CIPlatform::Buildkite => "Buildkite"@,
        CIPlatform::Hudson => "Hudson"@,
        CIPlatform::TaskCluster => "TaskCluster"@,
        CIPlatform::GoCD => "GoCD"@,
        CIPlatform::BitBucket => "BitBucket"@,
        CIPlatform::Generic => "Generic CI"@,
    }
}

/// Whether the environment `m` carries the indicator of platform `p`.
pub open spec fn indicated(m: Map<Seq<char>, Seq<char>>, p: CIPlatform) -> bool {
    match p {
        CIPlatform::Codeship => m.contains_key("CI_NAME"@) && m["CI_NAME"@] == "codeship"@,
        CIPlatform::Travis => m.contains_key("TRAVIS"@),
        CIPlatform::Circle => m.contains_key("CIRCLECI"@),
        CIPlatform::GitLab => m.contains_key("GITLAB_CI"@),
        CIPlatform::AppVeyor => m.contains_key("APPVEYOR"@),
        CIPlatform::Drone => m.contains_key("DRONE"@),
        CIPlatform::Magnum => m.contains_key("MAGNUM"@),
        CIPlatform::Semaphore => m.contains_key("SEMAPHORE"@),
        CIPlatform::Jenkins => m.contains_key("JENKINS_URL"@),
        CIPlatform::Bamboo => m.contains_key("bamboo_planKey"@),
        CIPlatform::TFS => m.contains_key("TF_BUILD"@),
        CIPlatform::TeamCity => m.contains_key("TEAMCITY_VERSION"@),
        CIPlatform::Buildkite => m.contains_key("BUILDKITE"@),
        CIPlatform::Hudson => m.contains_key("HUDSON_URL"@),
        CIPlatform::GoCD => m.contains_key("GO_PIPELINE_LABEL"@),
        CIPlatform::BitBucket => m.contains_key("BITBUCKET_COMMIT"@),
        CIPlatform::TaskCluster => m.contains_key("TASK_ID"@) && m.contains_key("RUN_ID"@),
        CIPlatform::Generic => m.contains_key("CI"@) || m.contains_key("CONTINUOUS_INTEGRATION"@)
            || m.contains_key("BUILD_NUMBER"@),
    }
}

/// The platform that the environment `m` points to: the first whose indicator
/// is present, with the exact-value rule first, then the vendors, then the
/// compound rule and last the generic fallback.
pub open spec fn detect_spec(m: Map<Seq<char>, Seq<char>>) -> Option<CIPlatform> {
    if indicated(m, CIPlatform::Codeship) {
        Some(CIPlatform::Codeship)
    } else if indicated(m, CIPlatform::Travis) {
        Some(CIPlatform::Travis)
    } else if indicated(m, CIPlatform::Circle) {
        Some(CIPlatform::Circle)
    } else if indicated(m, CIPlatform::GitLab) {
        Some(CIPlatform::GitLab)
    } else if indicated(m, CIPlatform::AppVeyor) {
        Some(CIPlatform::AppVeyor)
    } else if indicated(m, CIPlatform::Drone) {
        Some(CIPlatform::Drone)
    } else if indicated(m, CIPlatform::Magnum) {
        Some(CIPlatform::Magnum)
    } else if indicated(m, CIPlatform::Semaphore) {
        Some(CIPlatform::Semaphore)
    } else if indicated(m, CIPlatform::Jenkins) {
        Some(CIPlatform::Jenkins)
    } else if indicated(m, CIPlatform::Bamboo) {
        Some(CIPlatform::Bamboo)
    } else if indicated(m, CIPlatform::TFS) {
        Some(CIPlatform::TFS)
    } else if indicated(m, CIPlatform::TeamCity) {
        Some(CIPlatform::TeamCity)
    } else if indicated(m, CIPlatform::Buildkite) {
        Some(CIPlatform::Buildkite)
    } else if indicated(m, CIPlatform::Hudson) {
        Some(CIPlatform::Hudson)
    } else if indicated(m, CIPlatform::GoCD) {
        Some(CIPlatform::GoCD)
    } else if indicated(m, CIPlatform::BitBucket) {
        Some(CIPlatform::BitBucket)
    } else if indicated(m, CIPlatform::TaskCluster) {
        Some(CIPlatform::TaskCluster)
    } else if indicated(m, CIPlatform::Generic) {
        Some(CIPlatform::Generic)
    } else {
        None
    }
}

impl CIPlatform {
    /// The human-readable name of the platform.
    pub fn name(&self) -> (r: &'static str)
        ensures
            r@ == platform_name(*self),
    {
        match self {
            CIPlatform::Travis => "Travis CI",
            CIPlatform::Circle => "CircleCI",
            CIPlatform::GitLab => "GitLab",
            CIPlatform::AppVeyor => "AppVeyor",
            CIPlatform::Codeship => "CodeShip",
            CIPlatform::Drone => "Drone",
            CIPlatform::Magnum => "Magnum",
            CIPlatform::Semaphore => "Semaphore",
            CIPlatform::Jenkins => "Jenkins",
            CIPlatform::Bamboo => "Bamboo",
            CIPlatform::TFS => "Team Foundation Server",
            CIPlatform::TeamCity => "TeamCity",
            CIPlatform::Buildkite => "Buildkite",
            CIPlatform::Hudson => "Hudson",
            CIPlatform::TaskCluster => "TaskCluster",
            CIPlatform::GoCD => "GoCD",
            CIPlatform::BitBucket => "BitBucket",
            CIPlatform::Generic => "Generic CI",
        }
    }

    /// The platform that the environment points to, if any.
    pub fn detect_from_envmap(envmap: &EnvironmentMap) -> (r: Option<CIPlatform>)
        ensures
            r == detect_spec(envmap@),
    {
        match envmap.get("CI_NAME") {
            Some(v) => {
                if *v == "codeship".to_owned() {
                    return Some(CIPlatform::Codeship);
                }
            },
            None => {},
        }
        if envmap.contains_key("TRAVIS") {
            return Some(CIPlatform::Travis);
        }
        if envmap.contains_key("CIRCLECI") {
            return Some(CIPlatform::Circle);
        }
        if envmap.contains_key("GITLAB_CI") {
            return Some(CIPlatform::GitLab);
        }
        if envmap.contains_key("APPVEYOR") {
            return Some(CIPlatform::AppVeyor);
        }
        if envmap.contains_key("DRONE") {
            return Some(CIPlatform::Drone);
        }
        if envmap.contains_key("MAGNUM") {
            return Some(CIPlatform::Magnum);
        }
        if envmap.contains_key("SEMAPHORE") {
            return Some(CIPlatform::Semaphore);
        }
        if envmap.contains_key("JENKINS_URL") {
            return Some(CIPlatform::Jenkins);
        }
        if envmap.contains_key("bamboo_planKey") {
            return Some(CIPlatform::Bamboo);
        }
        if envmap.contains_key("TF_BUILD") {
            return Some(CIPlatform::TFS);
        }
        if envmap.contains_key("TEAMCITY_VERSION") {
            return Some(CIPlatform::TeamCity);
        }
        if envmap.contains_key("BUILDKITE") {
            return Some(CIPlatform::Buildkite);
        }
        if envmap.contains_key("HUDSON_URL") {
            return Some(CIPlatform::Hudson);
        }
        if envmap.contains_key("GO_PIPELINE_LABEL") {
            return Some(CIPlatform::GoCD);
        }
        if envmap.contains_key("BITBUCKET_COMMIT") {
            return Some(CIPlatform::BitBucket);
        }
        if envmap.contains_key("TASK_ID") && envmap.contains_key("RUN_ID") {
            return Some(CIPlatform::TaskCluster);
        }
        if envmap.contains_key("CI") || envmap.contains_key("CONTINUOUS_INTEGRATION")
            || envmap.contains_key("BUILD_NUMBER") {
            return Some(CIPlatform::Generic);
        }
        None
    }
}

/// An environment that carries the indicator of exactly one platform is
/// detected as that platform.
pub proof fn lemma_single_indicator_detected(m: Map<Seq<char>, Seq<char>>, p: CIPlatform)
    requires
        indicated(m, p),
        forall|q: CIPlatform| q != p ==> !#[trigger] indicated(m, q),
    ensures
        detect_spec(m) == Some(p),
{
    assert(indicated(m, CIPlatform::Codeship) == (p == CIPlatform::Codeship));
    match p {
        CIPlatform::Generic => {
            assert(!indicated(m, CIPlatform::Travis));
            assert(!indicated(m, CIPlatform::Circle));
            assert(!indicated(m, CIPlatform::GitLab));
            assert(!indicated(m, CIPlatform::AppVeyor));
            assert(!indicated(m, CIPlatform::Drone));
            assert(!indicated(m, CIPlatform::Magnum));
            assert(!indicated(m, CIPlatform::Semaphore));
            assert(!indicated(m, CIPlatform::Jenkins));
            assert(!indicated(m, CIPlatform::Bamboo));
            assert(!indicated(m, CIPlatform::TFS));
            assert(!indicated(m, CIPlatform::TeamCity));
            assert(!indicated(m, CIPlatform::Buildkite));
            assert(!indicated(m, CIPlatform::Hudson));
            assert(!indicated(m, CIPlatform::GoCD));
            assert(!indicated(m, CIPlatform::BitBucket));
            assert(!indicated(m, CIPlatform::TaskCluster));
        },
        _ => {
            assert(!indicated(m, CIPlatform::Generic) || p == CIPlatform::Generic);
            assert(p == CIPlatform::Travis || !indicated(m, CIPlatform::Travis));
            assert(p == CIPlatform::Circle || !indicated(m, CIPlatform::Circle));
            assert(p == CIPlatform::GitLab || !indicated(m, CIPlatform::GitLab));
            assert(p == CIPlatform::AppVeyor || !indicated(m, CIPlatform::AppVeyor));
            assert(p == CIPlatform::Drone || !indicated(m, CIPlatform::Drone));
            assert(p == CIPlatform::Magnum || !indicated(m, CIPlatform::Magnum));
            assert(p == CIPlatform::Semaphore || !indicated(m, CIPlatform::Semaphore));
            assert(p == CIPlatform::Jenkins || !indicated(m, CIPlatform::Jenkins));
            assert(p == CIPlatform::Bamboo || !indicated(m, CIPlatform::Bamboo));
            assert(p == CIPlatform::TFS || !indicated(m, CIPlatform::TFS));
            assert(p == CIPlatform::TeamCity || !indicated(m, CIPlatform::TeamCity));
            assert(p == CIPlatform::Buildkite || !indicated(m, CIPlatform::Buildkite));
            assert(p == CIPlatform::Hudson || !indicated(m, CIPlatform::Hudson));
            assert(p == CIPlatform::GoCD || !indicated(m, CIPlatform::GoCD));
            assert(p == CIPlatform::BitBucket || !indicated(m, CIPlatform::BitBucket));
            assert(p == CIPlatform::TaskCluster || !indicated(m, CIPlatform::TaskCluster));
        },
    }
}

/// An empty environment points to no platform.
pub proof fn lemma_empty_detects_none()
    ensures
        detect_spec(Map::<Seq<char>, Seq<char>>::empty()) == None::<CIPlatform>,
{
}

/// No platform is detected exactly when no indicator is present.
pub proof fn lemma_none_iff_no_indicator(m: Map<Seq<char>, Seq<char>>)
    ensures
        detect_spec(m) is None <==> forall|q: CIPlatform| !#[trigger] indicated(m, q),
{
    if detect_spec(m) is None {
        assert forall|q: CIPlatform| !#[trigger] indicated(m, q) by {
            match q {
                _ => {},
            }
        };
    }
}

/// The detected platform always carries its indicator; where any
/// vendor-specific indicator is present beside a generic one, the detected
/// platform is a specific vendor, never the generic fallback.
pub proof fn lemma_specific_before_generic(m: Map<Seq<char>, Seq<char>>, p: CIPlatform)
    requires
        indicated(m, p),
        p != CIPlatform::Generic,
        indicated(m, CIPlatform::Generic),
    ensures
        detect_spec(m) matches Some(q) && q != CIPlatform::Generic && indicated(m, q),
{
    match p {
        _ => {},
    }
}

} // verus!
