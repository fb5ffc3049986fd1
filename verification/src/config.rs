//! Where the client keeps its data.
use crate::errors::ConfigError;
use crate::paths::{join, joined, path_bytes, path_from};
use std::path::PathBuf;
use vstd::prelude::*;
use vstd::string::*;
use vstd::utf8::encode_utf8;

verus! {

/// The directories of the client.
#[derive(Debug)]
pub struct AppConfig {
    pub data_dir: PathBuf,
    pub default_download_dir: PathBuf,
    pub incoming_torrents_dir: PathBuf,
}

impl Clone for AppConfig {
    fn clone(&self) -> (copy: AppConfig)
        ensures
            copy == *self,
    {
        AppConfig {
            data_dir: self.data_dir.clone(),
            default_download_dir: self.default_download_dir.clone(),
            incoming_torrents_dir: self.incoming_torrents_dir.clone(),
        }
    }
}

/// The directory of that name below another.
pub open spec fn below(dir: Seq<u8>, name: Seq<char>) -> Seq<u8> {
    joined(dir, encode_utf8(name))
}

/// The home directory, or the current one where no home directory is known.
pub open spec fn default_home(home: Option<PathBuf>, cwd: Result<PathBuf, String>) -> Result<
    PathBuf,
    ConfigError,
> {
    match (home, cwd) {
        (Some(home), _) => Ok(home),
        (None, Ok(cwd)) => Ok(cwd),
        (None, Err(detail)) => Err(ConfigError::NoHomeDirectory { detail }),
    }
}

/// The home directory, or the current one where no home directory is known.
pub fn default_home_dir(home: Option<PathBuf>, cwd: Result<PathBuf, String>) -> (res: Result<
    PathBuf,
    ConfigError,
>)
    ensures
        res == default_home(home, cwd),
{
    match home {
        Some(home) => Ok(home),
        None => match cwd {
            Ok(cwd) => Ok(cwd),
            Err(detail) => Err(ConfigError::NoHomeDirectory { detail }),
        },
    }
}

impl AppConfig {
    /// The configuration of the terminal client, with its data below the current directory and
    /// its downloads among the data. `cwd` is the current directory, or why there is none.
    pub fn discover(cwd: Result<PathBuf, String>) -> (res: Result<AppConfig, ConfigError>)
        ensures
            match cwd {
                Err(detail) => res == Err::<AppConfig, ConfigError>(
                    ConfigError::NoWorkingDirectory { detail },
                ),
                Ok(dir) => {
                    let data_dir = below(path_bytes(dir), "rus-torrent-data"@);
                    &&& res is Ok
                    &&& path_bytes(res->Ok_0.data_dir) == data_dir
                    &&& path_bytes(res->Ok_0.default_download_dir) == below(
                        data_dir,
                        "downloads"@,
                    )
                    &&& path_bytes(res->Ok_0.incoming_torrents_dir) == below(
                        data_dir,
                        "incoming-torrents"@,
                    )
                },
            },
    {
        match cwd {
            Err(detail) => Err(ConfigError::NoWorkingDirectory { detail }),
            Ok(dir) => {
                let data_dir = join(&dir, &path_from("rus-torrent-data"));
                let default_download_dir = join(&data_dir, &path_from("downloads"));
                let incoming_torrents_dir = join(&data_dir, &path_from("incoming-torrents"));
                Ok(AppConfig { data_dir, default_download_dir, incoming_torrents_dir })
            },
        }
    }

    /// The configuration with its data in `data_dir` and its downloads in the home directory.
    /// `home` is the home directory that the environment names, `cwd` the current directory or
    /// why there is none.
    pub fn discover_in(
        data_dir: PathBuf,
        home: Option<PathBuf>,
        cwd: Result<PathBuf, String>,
    ) -> (res: Result<AppConfig, ConfigError>)
        ensures
            match default_home(home, cwd) {
                Ok(download_dir) => {
                    &&& res is Ok
                    &&& res->Ok_0.data_dir == data_dir
                    &&& res->Ok_0.default_download_dir == download_dir
                    &&& path_bytes(res->Ok_0.incoming_torrents_dir) == below(
                        path_bytes(data_dir),
                        "incoming-torrents"@,
                    )
                },
                Err(error) => res == Err::<AppConfig, ConfigError>(error),
            },
    {
        match default_home_dir(home, cwd) {
            Ok(default_download_dir) => {
                let incoming_torrents_dir = join(&data_dir, &path_from("incoming-torrents"));
                Ok(AppConfig { data_dir, default_download_dir, incoming_torrents_dir })
            },
            Err(error) => Err(error),
        }
    }

    /// The directories that have to be there before the client runs, in the order in which they
    /// are created.
    pub fn directories(&self) -> (dirs: Vec<PathBuf>)
        ensures
            dirs@ == seq![self.data_dir, self.default_download_dir, self.incoming_torrents_dir],
    {
        let mut dirs: Vec<PathBuf> = Vec::new();
        dirs.push(self.data_dir.clone());
        dirs.push(self.default_download_dir.clone());
        dirs.push(self.incoming_torrents_dir.clone());
        assert(dirs@ =~= seq![
            self.data_dir,
            self.default_download_dir,
            self.incoming_torrents_dir,
        ]);
        dirs
    }

    /// Goes on once a directory was, or was not, created.
    pub fn directory_created(dir: &PathBuf, created: Result<(), String>) -> (res: Result<
        (),
        ConfigError,
    >)
        ensures
            res == (match created {
                Ok(_) => Ok::<(), ConfigError>(()),
                Err(detail) => Err(ConfigError::Directory { dir: *dir, detail }),
            }),
    {
        match created {
            Ok(_) => Ok(()),
            Err(detail) => Err(ConfigError::Directory { dir: dir.clone(), detail }),
        }
    }
}

} // verus!
