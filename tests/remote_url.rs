use reposouls::git::{parse_remote_url, RemoteUrlError};

fn parsed(url: &str) -> Result<(String, String), RemoteUrlError> {
    parse_remote_url(url)
}

fn pair(owner: &str, repo: &str) -> Result<(String, String), RemoteUrlError> {
    Ok((owner.to_string(), repo.to_string()))
}

#[test]
fn https_url_is_split() {
    assert_eq!(parsed("https://github.com/octo/reposouls"), pair("octo", "reposouls"));
    assert_eq!(parsed("https://github.com/octo/reposouls.git"), pair("octo", "reposouls"));
}

#[test]
fn ssh_url_is_split() {
    assert_eq!(parsed("git@github.com:octo/reposouls.git"), pair("octo", "reposouls"));
}

#[test]
fn white_space_and_repeated_git_suffix_are_removed() {
    assert_eq!(parsed("git@github.com:octo/app.git.git \n"), pair("octo", "app"));
    assert_eq!(parsed("https://github.com/ \tocto/app\u{3000}"), pair("octo", "app"));
}

#[test]
fn empty_repo_name_is_kept() {
    assert_eq!(parsed("https://github.com/octo/"), pair("octo", ""));
}

#[test]
fn other_hosts_are_unsupported() {
    assert_eq!(parsed("https://gitlab.com/octo/app"), Err(RemoteUrlError::UnsupportedFormat));
    assert_eq!(parsed(" https://github.com/octo/app"), Err(RemoteUrlError::UnsupportedFormat));
    assert_eq!(parsed(""), Err(RemoteUrlError::UnsupportedFormat));
}

#[test]
fn path_must_have_one_slash() {
    assert_eq!(parsed("https://github.com/octo"), Err(RemoteUrlError::UnparsablePath));
    assert_eq!(parsed("https://github.com/octo/app/tree"), Err(RemoteUrlError::UnparsablePath));
    assert_eq!(parsed("git@github.com:"), Err(RemoteUrlError::UnparsablePath));
}
