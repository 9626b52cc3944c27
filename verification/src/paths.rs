//! Where captures are saved: the folders chosen from the user's directories
//! and the timestamped file names.
use vstd::prelude::*;
use crate::cli::opt_view;
use crate::config::Container;
use crate::selection::ImageSaveLocation;

verus! {

/// `name` appended to the directory `dir` as `PathBuf::push` does it on
/// Unix: an absolute `name` replaces `dir`; otherwise a `/` is put between
/// them unless `dir` is empty or already ends with one.
pub open spec fn joined_path(dir: Seq<char>, name: Seq<char>) -> Seq<char> {
    if name.len() > 0 && name[0] == '/' {
        name
    } else if dir.len() == 0 || dir.last() == '/' {
        dir + name
    } else {
        dir + "/"@ + name
    }
}

/// Append `name` to the directory `dir`.
pub fn join_path(dir: &str, name: &str) -> (p: String)
    ensures
        p@ == joined_path(dir@, name@),
{
    proof {
        reveal_strlit("/");
    }
    let nl = name.unicode_len();
    if nl > 0 && name.get_char(0) == '/' {
        return String::from_str(name);
    }
    let dl = dir.unicode_len();
    let mut p = String::from_str(dir);
    if !(dl == 0 || dir.get_char(dl - 1) == '/') {
        p.append("/");
    }
    p.append(name);
    p
}

/// The folder a screenshot is saved in: the user's pictures (or documents)
/// folder, else the folder of that name in the home folder; none when it
/// only goes to the clipboard or no folder is known.
pub open spec fn spec_image_save_dir(
    location: ImageSaveLocation,
    picture_dir: Option<Seq<char>>,
    document_dir: Option<Seq<char>>,
    home_dir: Option<Seq<char>>,
) -> Option<Seq<char>> {
    match location {
        ImageSaveLocation::Pictures => match picture_dir {
            Some(d) => Some(d),
            None => match home_dir {
                Some(h) => Some(joined_path(h, "Pictures"@)),
                None => None,
            },
        },
        ImageSaveLocation::Documents => match document_dir {
            Some(d) => Some(d),
            None => match home_dir {
                Some(h) => Some(joined_path(h, "Documents"@)),
                None => None,
            },
        },
        ImageSaveLocation::Clipboard => None,
    }
}

fn dir_or_home_child(dir: Option<String>, home_dir: Option<String>, child: &str) -> (r: Option<
    String,
>)
    ensures
        opt_view(r) == match opt_view(dir) {
            Some(d) => Some(d),
            None => match opt_view(home_dir) {
                Some(h) => Some(joined_path(h, child@)),
                None => None,
            },
        },
{
    match dir {
        Some(d) => Some(d),
        None => match home_dir {
            Some(h) => Some(join_path(h.as_str(), child)),
            None => None,
        },
    }
}

/// The folder a screenshot is saved in, given the user's folders.
pub fn image_save_dir(
    location: ImageSaveLocation,
    picture_dir: Option<String>,
    document_dir: Option<String>,
    home_dir: Option<String>,
) -> (r: Option<String>)
    ensures
        opt_view(r) == spec_image_save_dir(
            location,
            opt_view(picture_dir),
            opt_view(document_dir),
            opt_view(home_dir),
        ),
{
    match location {
        ImageSaveLocation::Pictures => dir_or_home_child(picture_dir, home_dir, "Pictures"),
        ImageSaveLocation::Documents => dir_or_home_child(document_dir, home_dir, "Documents"),
        ImageSaveLocation::Clipboard => None,
    }
}

/// The file name of a screenshot taken at `timestamp`.
pub open spec fn screenshot_file_name(timestamp: Seq<char>) -> Seq<char> {
    "Screenshot_"@ + timestamp + ".png"@
}

/// Where a screenshot taken at `timestamp` (formatted
/// `%Y-%m-%d_%H-%M-%S`) is saved, given the user's folders; none when it only
/// goes to the clipboard or no folder is known.
pub fn get_img_path(
    location: ImageSaveLocation,
    picture_dir: Option<String>,
    document_dir: Option<String>,
    home_dir: Option<String>,
    timestamp: &str,
) -> (r: Option<String>)
    ensures
        opt_view(r) == match spec_image_save_dir(
            location,
            opt_view(picture_dir),
            opt_view(document_dir),
            opt_view(home_dir),
        ) {
            Some(d) => Some(joined_path(d, screenshot_file_name(timestamp@))),
            None => None,
        },
{
    match image_save_dir(location, picture_dir, document_dir, home_dir) {
        Some(dir) => {
            let mut name = String::from_str("Screenshot_");
            name.append(timestamp);
            name.append(".png");
            Some(join_path(dir.as_str(), name.as_str()))
        },
        None => None,
    }
}

/// The folder recordings are saved in: the user's videos folder, else the
/// home folder, else the current folder.
pub open spec fn spec_video_output_dir(video_dir: Option<Seq<char>>, home_dir: Option<Seq<char>>) -> Seq<char> {
    match video_dir {
        Some(d) => d,
        None => match home_dir {
            Some(h) => h,
            None => "."@,
        },
    }
}

/// The file a recording started at `timestamp` is written to.
pub fn recording_output_path(
    video_dir: Option<String>,
    home_dir: Option<String>,
    timestamp: &str,
    container: Container,
) -> (p: String)
    ensures
        p@ == joined_path(
            spec_video_output_dir(opt_view(video_dir), opt_view(home_dir)),
            "recording-"@ + timestamp@ + "."@ + crate::config::spec_extension(container),
        ),
{
    let dir = match video_dir {
        Some(d) => d,
        None => match home_dir {
            Some(h) => h,
            None => String::from_str("."),
        },
    };
    let mut name = String::from_str("recording-");
    name.append(timestamp);
    name.append(".");
    name.append(container.extension());
    join_path(dir.as_str(), name.as_str())
}

/// The default custom folder for screenshots (or videos): the user's folder,
/// else the current folder.
pub fn default_custom_save_path(user_dir: Option<String>) -> (p: String)
    ensures
        p@ == match opt_view(user_dir) {
            Some(d) => d,
            None => "."@,
        },
{
    match user_dir {
        Some(d) => d,
        None => String::from_str("."),
    }
}

} // verus!
