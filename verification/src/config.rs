//! The configuration: its sections and the template written on first start.
use vstd::prelude::*;

verus! {

broadcast use vstd::string::group_string_axioms;

/// What can go wrong while reading, writing or parsing the configuration.
#[derive(Debug, Clone, Copy, PartialEq, Eq)]
pub enum ConfigError {
    ReadError,
    WriteError,
    CreateError,
    ParseError,
}

/// The whole configuration.
#[derive(Debug)]
pub struct Config {
    pub db: ConfigDB,
    pub general: ConfigGen,
    pub cleanup: ConfigCleanup,
    pub codecs: ConfigCodecs,
}

/// Database connection settings.
#[derive(Debug)]
pub struct ConfigDB {
    pub user: String,
    pub password: String,
    pub port: u16,
    pub db: String,
    pub ip: String,
}

/// General settings.
#[derive(Debug)]
pub struct ConfigGen {
    pub link_subqueries: bool,
    pub link_files: bool,
    /// folder to temporarily save the raw files
    pub temp_dir: String,
    /// folder to which the files are moved
    pub download_dir: String,
    pub mp3_quality: i16,
    /// download speed limit in MBit/s
    pub download_mbps: u16,
    /// folder of the ffmpeg binaries
    pub ffmpeg_bin_dir: String,
    pub lib_use: bool,
    pub lib_dir: String,
    pub lib_bin: String,
    pub lib_args: Vec<String>,
    /// delete all files inside the temp folder on startup
    pub clean_temp_dir: bool,
    pub youtube_dl_dir: String,
    pub youtube_dl_auto_update: bool,
}

/// Cleanup settings.
#[derive(Debug, Clone, Copy, PartialEq, Eq)]
pub struct ConfigCleanup {
    /// delete files older than `auto_delete_age`
    pub auto_delete_files: bool,
    /// maximum age in minutes
    pub auto_delete_age: u16,
    /// cleanup interval in minutes
    pub auto_delete_interval: u16,
    /// delete the requests of those files too
    pub auto_delete_request: bool,
    /// delete files marked for deletion
    pub delete_files: bool,
    /// delete the request of a marked file too
    pub delete_request: bool,
    /// interval of the marked-file cleanup in minutes
    pub delete_interval: u16,
}

/// Youtube itags used for the audio part of downloads.
#[derive(Debug, Clone, Copy, PartialEq, Eq)]
pub struct ConfigYT {
    pub audio_normal_mp4: i16,
    pub audio_normal_webm: i16,
    pub audio_hq: i16,
}

/// Quality codes of the special (audio) jobs.
#[derive(Debug, Clone, Copy, PartialEq, Eq)]
pub struct ConfigCodecs {
    pub audio_raw: i16,
    pub audio_source_hq: i16,
    pub audio_mp3: i16,
    pub yt: ConfigYT,
}

/// The configuration written on first start, for the administrator to edit.
pub const CONFIG_TEMPLATE: &'static str = r#"[db]
user = "user"
password = "password"
db = "yayd"
port = 3306
ip = "127.0.0.1"

[general]

# insert subquery relations into table subqueries
link_subqueries = true
# store file-query relations in query_files table
# this is required for auto_delete_files!
link_files = true

# temporary dir for downloads before the conversion etc
temp_dir = "~/downloads/temp"

# final destination of downloaded files / playlists
download_dir = "~/downloads"

# download speed limit
download_mbps = 48 # MBit/s limit
# mp3 quality to use for conversion, see https://trac.ffmpeg.org/wiki/Encode/MP3
mp3_quality = 2

# folder in which the ffmpeg binaries are lying
ffmpeg_bin_dir = "~/ffmpeg/ffmpeg-2.6.2-64bit-static/"

# additional lib callable in case of country-locks
# will be called with {[optional arguments]} -q {quality} -r {speed limit} -f {dest. file} -v {video/audio -> true/false} {url}
# the lib's return after 'name: ' will be taken as the name of the video/file to use
lib_use = false
lib_bin = "/binary" # path to binary
lib_args = ["arg1", "arg2"] # additional arguments
lib_dir = "/" # working dir to use

# clean the temp dir on startup (deletes ALL files insides!)
# for crash cleanups at debugging
clean_temp_dir = false

# auto update youtube-dl
# if set to false you've to provide youtube-dl yourself and keep it up to date
# to guarantee keeping up with website changes
# (the command youtube-dl has to be availble from the command line)
youtube_dl_auto_update = true

# folder of youtube-dl (yt-dl.org)
# if youtube_dl_dir is true, this will also be the update directory
# so make sure yayd has write permission on it
youtube_dl_dir = "/path/to/ytdl/"

[cleanup]
# auto delete files older then X minutes
auto_delete_files = true
auto_delete_age = 4320
# delete execution interval: minutes
auto_delete_interval = 1440
# set to true to also delete the DB entries along with those files
# requires link_files
auto_delete_request = false

# delete marked files
# deletes files marked with the "delete" flag
# by this all delete IO is handled by yayd and not the webserver
# this can also be used to give the web server only read access
delete_files = true
# delete interval (re-check for entries) in minutes
delete_interval = 900
# delte the request db entry along with the file
# requires link_files
delete_request = false

[codecs]
# general audio only quality ids, if supported by the handler
# audio type : quality value
audio_mp3 = -1
audio_raw = -2
audio_source_hq = -3

# see https://en.wikipedia.org/wiki/YouTube#Quality_and_formats
# the individual values for video-downloads are set by the db-entry
# these values here are for music/mp3 extract/conversion
[codecs.yt]
# audio type : itag
audio_normal_mp4 = 140
audio_normal_webm = 171
audio_hq = 22

#[codecs.twitch]
# supported twitch options
#supported = ["Source","High","Medium","Low","Mobile"]
    "#;

/// A new configuration file's text: the template.
pub fn create_config() -> (r: String)
    ensures
        r@ == CONFIG_TEMPLATE@,
{
    CONFIG_TEMPLATE.to_string()
}

} // verus!
