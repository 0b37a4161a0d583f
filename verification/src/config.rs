//! Command-line arguments, configuration-file values, and their resolution
//! into one crawl plan: which site to crawl, with which engine settings,
//! headers and cookies.
//!
//! Every setting is taken from the arguments first, from the configuration
//! second, and from the built-in default last. A site job that is missing
//! its credential fails the whole resolution.

use crate::crawler::query_view;
use vstd::prelude::*;

verus! {

/// Command-line arguments, already parsed into plain values.
#[derive(Debug)]
pub struct Arguments {
    /// Where the configuration file was read from, if anywhere.
    pub config: Option<String>,
    pub concurrency: Option<usize>,
    pub timeout: Option<u64>,
    pub retry: Option<usize>,
    pub output: Option<String>,
    pub website: Option<Website>,
}

/// The site subcommand.
#[derive(Debug)]
pub enum Website {
    Exhentai {
        reload: Option<usize>,
        ipb_member_id: Option<String>,
        ipb_pass_hash: Option<String>,
        galleries: Vec<String>,
    },
    Pixiv { phpsessid: Option<String>, target: Option<PixivTarget> },
    Fanbox { fanboxsessid: Option<String>, posts: Vec<String> },
}

/// What to crawl on the illustration site: whole users, or single works.
#[derive(Debug)]
pub enum PixivTarget {
    User { users: Vec<String> },
    Illust { illusts: Vec<String> },
}

/// Values loaded from the configuration file.
#[derive(Debug)]
pub struct Config {
    pub concurrency: Option<usize>,
    pub timeout: Option<u64>,
    pub retry: Option<usize>,
    pub output: Option<String>,
    pub exhentai: Option<ExhentaiConfig>,
    pub pixiv: Option<PixivConfig>,
    pub fanbox: Option<FanboxConfig>,
}

#[derive(Debug)]
pub struct ExhentaiConfig {
    pub reload: Option<usize>,
    pub ipb_member_id: Option<String>,
    pub ipb_pass_hash: Option<String>,
}

#[derive(Debug)]
pub struct PixivConfig {
    pub phpsessid: Option<String>,
}

#[derive(Debug)]
pub struct FanboxConfig {
    pub fanboxsessid: Option<String>,
}

/// One fully-resolved crawl job, with the headers and cookies its engine
/// is to be constructed with.
#[derive(Debug)]
pub enum Job {
    Exhentai { reload: usize, cookies: Vec<(String, String)>, galleries: Vec<String> },
    Pixiv {
        headers: Vec<(String, String)>,
        cookies: Vec<(String, String)>,
        target: Option<PixivTarget>,
    },
    Fanbox { headers: Vec<(String, String)>, cookies: Vec<(String, String)>, posts: Vec<String> },
}

/// The outcome of resolving arguments and configuration: the engine
/// settings and the job to run, if any was asked for.
#[derive(Debug)]
pub struct Plan {
    pub concurrency: usize,
    pub timeout: u64,
    pub retry: usize,
    pub output: String,
    pub job: Option<Job>,
}

/// The first defined value wins: the argument, else the configuration,
/// else the default.
pub open spec fn preferred<T>(primary: Option<T>, fallback: Option<T>, default: T) -> T {
    match primary {
        Some(v) => v,
        None => match fallback {
            Some(v) => v,
            None => default,
        },
    }
}

/// The argument value, or the configuration value where no argument was
/// given.
pub open spec fn first_defined<T>(primary: Option<T>, fallback: Option<T>) -> Option<T> {
    match primary {
        Some(v) => Some(v),
        None => fallback,
    }
}

pub open spec fn exhentai_reload_cfg(c: Config) -> Option<usize> {
    match c.exhentai {
        Some(eh) => eh.reload,
        None => None,
    }
}

pub open spec fn exhentai_member_cfg(c: Config) -> Option<String> {
    match c.exhentai {
        Some(eh) => eh.ipb_member_id,
        None => None,
    }
}

pub open spec fn exhentai_hash_cfg(c: Config) -> Option<String> {
    match c.exhentai {
        Some(eh) => eh.ipb_pass_hash,
        None => None,
    }
}

pub open spec fn pixiv_sessid_cfg(c: Config) -> Option<String> {
    match c.pixiv {
        Some(px) => px.phpsessid,
        None => None,
    }
}

pub open spec fn fanbox_sessid_cfg(c: Config) -> Option<String> {
    match c.fanbox {
        Some(fb) => fb.fanboxsessid,
        None => None,
    }
}

/// Whether resolution succeeds: every site job needs its credential, from
/// the arguments or from the configuration.
pub open spec fn run_accepted(arguments: Arguments, config: Config) -> bool {
    match arguments.website {
        None => true,
        Some(Website::Exhentai { ipb_member_id, ipb_pass_hash, .. }) => {
            &&& first_defined(ipb_member_id, exhentai_member_cfg(config)) is Some
            &&& first_defined(ipb_pass_hash, exhentai_hash_cfg(config)) is Some
        },
        Some(Website::Pixiv { phpsessid, .. }) => first_defined(
            phpsessid,
            pixiv_sessid_cfg(config),
        ) is Some,
        Some(Website::Fanbox { fanboxsessid, .. }) => first_defined(
            fanboxsessid,
            fanbox_sessid_cfg(config),
        ) is Some,
    }
}

/// Resolves arguments and configuration into one crawl plan: concurrency,
/// timeout and retry from argument, configuration or default (8, 30, 1);
/// the output directory likewise (default the current directory); and the
/// requested site job with its headers and cookies, built from the
/// resolved credential. A missing credential fails the resolution with a
/// message naming it.
pub fn run(arguments: Arguments, config: Config) -> (r: Result<Plan, String>)
    ensures
        r is Ok <==> run_accepted(arguments, config),
        r matches Ok(plan) ==> {
            &&& plan.concurrency == preferred(arguments.concurrency, config.concurrency, 8usize)
            &&& plan.timeout == preferred(arguments.timeout, config.timeout, 30u64)
            &&& plan.retry == preferred(arguments.retry, config.retry, 1usize)
            &&& plan.output@ == match first_defined(arguments.output, config.output) {
                Some(dir) => dir@,
                None => "."@,
            }
            &&& arguments.website is None ==> plan.job is None
            &&& arguments.website matches Some(Website::Exhentai {
                reload,
                ipb_member_id,
                ipb_pass_hash,
                galleries,
            }) ==> (plan.job matches Some(Job::Exhentai {
                reload: chosen_reload,
                cookies,
                galleries: kept,
            }) && {
                &&& chosen_reload == preferred(reload, exhentai_reload_cfg(config), 1usize)
                &&& query_view(cookies@) =~= seq![
                    (
                        "ipb_member_id"@,
                        first_defined(ipb_member_id, exhentai_member_cfg(config)).unwrap()@,
                    ),
                    (
                        "ipb_pass_hash"@,
                        first_defined(ipb_pass_hash, exhentai_hash_cfg(config)).unwrap()@,
                    ),
                ]
                &&& kept == galleries
            })
            &&& arguments.website matches Some(Website::Pixiv { phpsessid, target }) ==> (
            plan.job matches Some(Job::Pixiv {
                headers,
                cookies,
                target: kept,
            }) && {
                &&& query_view(headers@) =~= seq![("Referer"@, "https://www.pixiv.net/"@)]
                &&& query_view(cookies@) =~= seq![
                    ("PHPSESSID"@, first_defined(phpsessid, pixiv_sessid_cfg(config)).unwrap()@),
                ]
                &&& kept == target
            })
            &&& arguments.website matches Some(Website::Fanbox { fanboxsessid, posts }) ==> (
            plan.job matches Some(Job::Fanbox {
                headers,
                cookies,
                posts: kept,
            }) && {
                &&& query_view(headers@) =~= seq![("Origin"@, "https://www.fanbox.cc"@)]
                &&& query_view(cookies@) =~= seq![
                    (
                        "FANBOXSESSID"@,
                        first_defined(fanboxsessid, fanbox_sessid_cfg(config)).unwrap()@,
                    ),
                ]
                &&& kept == posts
            })
        },
        r matches Err(m) ==> {
            &&& arguments.website matches Some(Website::Exhentai {
                ipb_member_id,
                ipb_pass_hash,
                ..
            }) ==> {
                &&& first_defined(ipb_member_id, exhentai_member_cfg(config)) is None ==> m@
                    == "`ipb_member_id` is not defined"@
                &&& (first_defined(ipb_member_id, exhentai_member_cfg(config)) is Some
                    && first_defined(ipb_pass_hash, exhentai_hash_cfg(config)) is None) ==> m@
                    == "`ipb_pass_hash` is not defined"@
            }
            &&& arguments.website matches Some(Website::Pixiv { phpsessid, .. }) ==> (
            first_defined(phpsessid, pixiv_sessid_cfg(config)) is None ==> m@
                == "`phpsessid` is not defined"@)
            &&& arguments.website matches Some(Website::Fanbox { fanboxsessid, .. }) ==> (
            first_defined(fanboxsessid, fanbox_sessid_cfg(config)) is None ==> m@
                == "`FANBOXSESSID` is not defined"@)
        },
{
    let concurrency = match arguments.concurrency {
        Some(v) => v,
        None => match config.concurrency {
            Some(v) => v,
            None => 8,
        },
    };
    let timeout = match arguments.timeout {
        Some(v) => v,
        None => match config.timeout {
            Some(v) => v,
            None => 30,
        },
    };
    let retry = match arguments.retry {
        Some(v) => v,
        None => match config.retry {
            Some(v) => v,
            None => 1,
        },
    };
    let output = match arguments.output {
        Some(v) => v,
        None => match config.output {
            Some(v) => v,
            None => String::from_str("."),
        },
    };
    match arguments.website {
        None => Ok(Plan { concurrency, timeout, retry, output, job: None }),
        Some(Website::Exhentai { reload, ipb_member_id, ipb_pass_hash, galleries }) => {
            let (cfg_reload, cfg_member, cfg_hash) = match config.exhentai {
                Some(eh) => (eh.reload, eh.ipb_member_id, eh.ipb_pass_hash),
                None => (None, None, None),
            };
            let reload = match reload {
                Some(v) => v,
                None => match cfg_reload {
                    Some(v) => v,
                    None => 1,
                },
            };
            let member = match ipb_member_id {
                Some(v) => v,
                None => match cfg_member {
                    Some(v) => v,
                    None => {
                        return Err(String::from_str("`ipb_member_id` is not defined"));
                    },
                },
            };
            let hash = match ipb_pass_hash {
                Some(v) => v,
                None => match cfg_hash {
                    Some(v) => v,
                    None => {
                        return Err(String::from_str("`ipb_pass_hash` is not defined"));
                    },
                },
            };
            let mut cookies: Vec<(String, String)> = Vec::new();
            cookies.push((String::from_str("ipb_member_id"), member));
            cookies.push((String::from_str("ipb_pass_hash"), hash));
            Ok(
                Plan {
                    concurrency,
                    timeout,
                    retry,
                    output,
                    job: Some(Job::Exhentai { reload, cookies, galleries }),
                },
            )
        },
        Some(Website::Pixiv { phpsessid, target }) => {
            let sessid = match phpsessid {
                Some(v) => v,
                None => match config.pixiv {
                    Some(px) => match px.phpsessid {
                        Some(v) => v,
                        None => {
                            return Err(String::from_str("`phpsessid` is not defined"));
                        },
                    },
                    None => {
                        return Err(String::from_str("`phpsessid` is not defined"));
                    },
                },
            };
            let mut headers: Vec<(String, String)> = Vec::new();
            headers.push(
                (String::from_str("Referer"), String::from_str("https://www.pixiv.net/")),
            );
            let mut cookies: Vec<(String, String)> = Vec::new();
            cookies.push((String::from_str("PHPSESSID"), sessid));
            Ok(
                Plan {
                    concurrency,
                    timeout,
                    retry,
                    output,
                    job: Some(Job::Pixiv { headers, cookies, target }),
                },
            )
        },
        Some(Website::Fanbox { fanboxsessid, posts }) => {
            let sessid = match fanboxsessid {
                Some(v) => v,
                None => match config.fanbox {
                    Some(fb) => match fb.fanboxsessid {
                        Some(v) => v,
                        None => {
                            return Err(String::from_str("`FANBOXSESSID` is not defined"));
                        },
                    },
                    None => {
                        return Err(String::from_str("`FANBOXSESSID` is not defined"));
                    },
                },
            };
            let mut headers: Vec<(String, String)> = Vec::new();
            headers.push((String::from_str("Origin"), String::from_str("https://www.fanbox.cc")));
            let mut cookies: Vec<(String, String)> = Vec::new();
            cookies.push((String::from_str("FANBOXSESSID"), sessid));
            Ok(
                Plan {
                    concurrency,
                    timeout,
                    retry,
                    output,
                    job: Some(Job::Fanbox { headers, cookies, posts }),
                },
            )
        },
    }
}

} // verus!
