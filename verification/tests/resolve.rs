//! Resolution of arguments and configuration into a crawl plan, and the
//! small rendering helpers.

use h_crawler::config::Config;
use h_crawler::config::ExhentaiConfig;
use h_crawler::config::FanboxConfig;
use h_crawler::config::Job;
use h_crawler::config::PixivConfig;
use h_crawler::config::PixivTarget;
use h_crawler::config::Website;
use h_crawler::run;
use h_crawler::usize_to_string;
use h_crawler::Arguments;
use h_crawler::Gallery;

fn empty_arguments() -> Arguments {
    Arguments {
        config: None,
        concurrency: None,
        timeout: None,
        retry: None,
        output: None,
        website: None,
    }
}

fn empty_config() -> Config {
    Config {
        concurrency: None,
        timeout: None,
        retry: None,
        output: None,
        exhentai: None,
        pixiv: None,
        fanbox: None,
    }
}

#[test]
fn defaults_apply_when_nothing_is_given() {
    let plan = run(empty_arguments(), empty_config()).unwrap();
    assert_eq!(plan.concurrency, 8);
    assert_eq!(plan.timeout, 30);
    assert_eq!(plan.retry, 1);
    assert_eq!(plan.output, ".");
    assert!(plan.job.is_none());
}

#[test]
fn arguments_override_configuration() {
    let mut arguments = empty_arguments();
    arguments.concurrency = Some(3);
    arguments.output = Some("/tmp/out".to_string());
    let mut config = empty_config();
    config.concurrency = Some(16);
    config.timeout = Some(90);
    config.output = Some("/var/other".to_string());
    let plan = run(arguments, config).unwrap();
    assert_eq!(plan.concurrency, 3, "the argument wins over the configuration");
    assert_eq!(plan.timeout, 90, "the configuration wins over the default");
    assert_eq!(plan.output, "/tmp/out");
}

#[test]
fn exhentai_job_builds_cookies_from_credentials() {
    let mut arguments = empty_arguments();
    arguments.website = Some(Website::Exhentai {
        reload: None,
        ipb_member_id: Some("12345".to_string()),
        ipb_pass_hash: None,
        galleries: vec!["1720798/fae55905ba/".to_string()],
    });
    let mut config = empty_config();
    config.exhentai = Some(ExhentaiConfig {
        reload: Some(2),
        ipb_member_id: Some("ignored".to_string()),
        ipb_pass_hash: Some("cafe".to_string()),
    });
    let plan = run(arguments, config).unwrap();
    match plan.job {
        Some(Job::Exhentai { reload, cookies, galleries }) => {
            assert_eq!(reload, 2);
            assert_eq!(
                cookies,
                vec![
                    ("ipb_member_id".to_string(), "12345".to_string()),
                    ("ipb_pass_hash".to_string(), "cafe".to_string()),
                ]
            );
            assert_eq!(galleries, vec!["1720798/fae55905ba/".to_string()]);
        },
        _ => panic!("expected a gallery job"),
    }
}

#[test]
fn missing_member_id_fails_resolution() {
    let mut arguments = empty_arguments();
    arguments.website = Some(Website::Exhentai {
        reload: None,
        ipb_member_id: None,
        ipb_pass_hash: Some("cafe".to_string()),
        galleries: Vec::new(),
    });
    let err = run(arguments, empty_config()).unwrap_err();
    assert_eq!(err, "`ipb_member_id` is not defined");
}

#[test]
fn missing_pass_hash_fails_resolution() {
    let mut arguments = empty_arguments();
    arguments.website = Some(Website::Exhentai {
        reload: None,
        ipb_member_id: Some("12345".to_string()),
        ipb_pass_hash: None,
        galleries: Vec::new(),
    });
    let err = run(arguments, empty_config()).unwrap_err();
    assert_eq!(err, "`ipb_pass_hash` is not defined");
}

#[test]
fn pixiv_job_takes_session_from_configuration() {
    let mut arguments = empty_arguments();
    arguments.website = Some(Website::Pixiv {
        phpsessid: None,
        target: Some(PixivTarget::User { users: vec!["123".to_string()] }),
    });
    let mut config = empty_config();
    config.pixiv = Some(PixivConfig { phpsessid: Some("abc".to_string()) });
    let plan = run(arguments, config).unwrap();
    match plan.job {
        Some(Job::Pixiv { headers, cookies, target }) => {
            assert_eq!(
                headers,
                vec![("Referer".to_string(), "https://www.pixiv.net/".to_string())]
            );
            assert_eq!(cookies, vec![("PHPSESSID".to_string(), "abc".to_string())]);
            match target {
                Some(PixivTarget::User { users }) => assert_eq!(users, vec!["123".to_string()]),
                _ => panic!("expected the user target"),
            }
        },
        _ => panic!("expected an illustration job"),
    }
}

#[test]
fn missing_phpsessid_fails_resolution() {
    let mut arguments = empty_arguments();
    arguments.website = Some(Website::Pixiv { phpsessid: None, target: None });
    let err = run(arguments, empty_config()).unwrap_err();
    assert_eq!(err, "`phpsessid` is not defined");
}

#[test]
fn fanbox_job_builds_origin_header_and_cookie() {
    let mut arguments = empty_arguments();
    arguments.website = Some(Website::Fanbox {
        fanboxsessid: Some("xyz".to_string()),
        posts: vec!["42".to_string()],
    });
    let mut config = empty_config();
    config.fanbox = Some(FanboxConfig { fanboxsessid: Some("unused".to_string()) });
    let plan = run(arguments, config).unwrap();
    match plan.job {
        Some(Job::Fanbox { headers, cookies, posts }) => {
            assert_eq!(
                headers,
                vec![("Origin".to_string(), "https://www.fanbox.cc".to_string())]
            );
            assert_eq!(cookies, vec![("FANBOXSESSID".to_string(), "xyz".to_string())]);
            assert_eq!(posts, vec!["42".to_string()]);
        },
        _ => panic!("expected a post job"),
    }
}

#[test]
fn missing_fanboxsessid_fails_resolution() {
    let mut arguments = empty_arguments();
    arguments.website = Some(Website::Fanbox { fanboxsessid: None, posts: Vec::new() });
    let err = run(arguments, empty_config()).unwrap_err();
    assert_eq!(err, "`FANBOXSESSID` is not defined");
}

#[test]
fn decimal_rendering_is_exact() {
    assert_eq!(usize_to_string(0), "0");
    assert_eq!(usize_to_string(7), "7");
    assert_eq!(usize_to_string(12345), "12345");
    assert_eq!(usize_to_string(usize::MAX), usize::MAX.to_string());
}

#[test]
fn gallery_description_includes_optional_range() {
    let ranged = Gallery::new("artist", "title", "/g/1720798/fae55905ba/", Some((1, 26)));
    assert_eq!(ranged.describe(), "[artist] title @ /g/1720798/fae55905ba/ pp. 1-26");
    let plain = Gallery::new("artist", "title", "/g/1720798/fae55905ba/", None);
    assert_eq!(plain.describe(), "[artist] title @ /g/1720798/fae55905ba/");
}
