use built::{git_descriptor, CIPlatform, EnvironmentMap, GenError, RepoLookup};

fn env_of(pairs: &[(&str, &str)]) -> EnvironmentMap {
    let mut m = EnvironmentMap::new();
    for (k, v) in pairs {
        m.insert((*k).to_owned(), (*v).to_owned());
    }
    m
}

#[test]
fn detect_empty_is_none() {
    assert_eq!(CIPlatform::detect_from_envmap(&EnvironmentMap::new()), None);
}

#[test]
fn detect_travis_only() {
    let m = env_of(&[("TRAVIS", "true"), ("HOME", "/root")]);
    assert_eq!(CIPlatform::detect_from_envmap(&m), Some(CIPlatform::Travis));
    assert_eq!(CIPlatform::Travis.name(), "Travis CI");
}

#[test]
fn detect_each_vendor_alone() {
    let cases = [("CIRCLECI", CIPlatform::Circle),
                 ("GITLAB_CI", CIPlatform::GitLab),
                 ("APPVEYOR", CIPlatform::AppVeyor),
                 ("DRONE", CIPlatform::Drone),
                 ("MAGNUM", CIPlatform::Magnum),
                 ("SEMAPHORE", CIPlatform::Semaphore),
                 ("JENKINS_URL", CIPlatform::Jenkins),
                 ("bamboo_planKey", CIPlatform::Bamboo),
                 ("TF_BUILD", CIPlatform::TFS),
                 ("TEAMCITY_VERSION", CIPlatform::TeamCity),
                 ("BUILDKITE", CIPlatform::Buildkite),
                 ("HUDSON_URL", CIPlatform::Hudson),
                 ("GO_PIPELINE_LABEL", CIPlatform::GoCD),
                 ("BITBUCKET_COMMIT", CIPlatform::BitBucket),
                 ("CI", CIPlatform::Generic),
                 ("CONTINUOUS_INTEGRATION", CIPlatform::Generic),
                 ("BUILD_NUMBER", CIPlatform::Generic)];
    for (k, p) in cases.iter() {
        let m = env_of(&[(k, "1")]);
        assert_eq!(CIPlatform::detect_from_envmap(&m), Some(*p), "{}", k);
    }
}

#[test]
fn detect_codeship_needs_exact_value() {
    assert_eq!(CIPlatform::detect_from_envmap(&env_of(&[("CI_NAME", "codeship")])),
               Some(CIPlatform::Codeship));
    assert_eq!(CIPlatform::detect_from_envmap(&env_of(&[("CI_NAME", "other")])), None);
}

#[test]
fn detect_taskcluster_needs_both() {
    assert_eq!(CIPlatform::detect_from_envmap(&env_of(&[("TASK_ID", "1")])), None);
    assert_eq!(CIPlatform::detect_from_envmap(&env_of(&[("TASK_ID", "1"), ("RUN_ID", "2")])),
               Some(CIPlatform::TaskCluster));
}

#[test]
fn detect_specific_before_generic() {
    let m = env_of(&[("CI", "true"), ("APPVEYOR", "True")]);
    assert_eq!(CIPlatform::detect_from_envmap(&m), Some(CIPlatform::AppVeyor));
    let m = env_of(&[("BUILD_NUMBER", "7"), ("TASK_ID", "a"), ("RUN_ID", "b")]);
    assert_eq!(CIPlatform::detect_from_envmap(&m), Some(CIPlatform::TaskCluster));
    let m = env_of(&[("CI", "true"), ("CI_NAME", "codeship")]);
    assert_eq!(CIPlatform::detect_from_envmap(&m), Some(CIPlatform::Codeship));
}

#[test]
fn platform_names() {
    assert_eq!(CIPlatform::TFS.name(), "Team Foundation Server");
    assert_eq!(CIPlatform::Generic.name(), "Generic CI");
    assert_eq!(CIPlatform::Codeship.name(), "CodeShip");
    assert_eq!(CIPlatform::Circle.name(), "CircleCI");
}

#[test]
fn environment_insert_replaces() {
    let mut m = EnvironmentMap::new();
    m.insert("A".to_owned(), "1".to_owned());
    m.insert("B".to_owned(), "2".to_owned());
    m.insert("A".to_owned(), "3".to_owned());
    assert_eq!(m.get("A"), Some(&"3".to_owned()));
    assert_eq!(m.get("B"), Some(&"2".to_owned()));
    assert_eq!(m.get("C"), None);
    assert!(m.contains_key("B"));
    assert!(!m.contains_key("b"));
}

#[test]
fn git_missing_object_swallowed_on_ci() {
    let m = env_of(&[("TRAVIS", "true")]);
    assert_eq!(git_descriptor(RepoLookup::ObjectNotFound("odb".to_owned()), &m), Ok(None));
}

#[test]
fn git_missing_object_fails_off_ci() {
    let m = env_of(&[]);
    assert_eq!(git_descriptor(RepoLookup::ObjectNotFound("odb".to_owned()), &m),
               Err(GenError::Repository("odb".to_owned())));
}

#[test]
fn git_other_failure_fails_on_ci() {
    let m = env_of(&[("CI", "1")]);
    assert_eq!(git_descriptor(RepoLookup::Failed("broken".to_owned()), &m),
               Err(GenError::Repository("broken".to_owned())));
}

#[test]
fn git_described_passes_through() {
    let m = env_of(&[]);
    assert_eq!(git_descriptor(RepoLookup::Described(Some("foobar".to_owned())), &m),
               Ok(Some("foobar".to_owned())));
    assert_eq!(git_descriptor(RepoLookup::Described(None), &m), Ok(None));
}

#[test]
fn head_descriptor_prefers_tag() {
    assert_eq!(built::head_descriptor(&vec!["foobar".to_owned()], "abc1234"), "foobar");
    assert_eq!(built::head_descriptor(&vec![], "abc1234"), "abc1234");
}
