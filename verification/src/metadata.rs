//! Metadata carried to the downloader: track numbering, the per-video
//! metadata fields, and the extract result handed over for downloading.
use vstd::prelude::*;

verus! {

/// A current number within a total, such as "part 2 of 8".
#[derive(Debug, Clone, Copy, PartialEq, Eq, Structural)]
pub struct NoInTotal {
    _no: usize,
    _total: usize,
}

impl NoInTotal {
    /// The number may not exceed the total.
    pub fn new(no: usize, total: usize) -> (r: Option<Self>)
        ensures
            r is Some <==> no <= total,
            r matches Some(t) ==> t.spec_no() == no && t.spec_total() == total,
    {
        if no > total {
            None
        } else {
            Some(Self { _no: no, _total: total })
        }
    }

    pub closed spec fn spec_no(&self) -> usize {
        self._no
    }

    pub closed spec fn spec_total(&self) -> usize {
        self._total
    }

    pub fn no(&self) -> (r: usize)
        ensures
            r == self.spec_no(),
    {
        self._no
    }

    pub fn total(&self) -> (r: usize)
        ensures
            r == self.spec_total(),
    {
        self._total
    }
}

/// Video metadata. The publish and creation dates are carried as Unix
/// timestamps; the host formats them when it writes metadata out.
#[derive(Debug, Clone)]
pub struct VideoMetadata {
    /// Video title.
    pub title: Option<String>,
    /// Video description.
    pub description: Option<String>,
    /// Video author.
    pub author: Option<String>,
    /// Video series name.
    pub album: Option<String>,
    /// Video id.
    pub video_id: Option<String>,
    /// Video part number.
    pub track: Option<NoInTotal>,
    /// Video tags.
    pub tags: Vec<String>,
    /// Video series's author.
    pub album_artist: Option<String>,
    /// Publish date, as a Unix timestamp.
    pub date: Option<i64>,
    /// Video comment.
    pub comment: Option<String>,
    /// Extra metadata entries.
    pub extra: Vec<(String, String)>,
}

impl Default for VideoMetadata {
    fn default() -> (r: VideoMetadata)
        ensures
            r.title is None,
            r.description is None,
            r.author is None,
            r.album is None,
            r.video_id is None,
            r.track is None,
            r.tags@.len() == 0,
            r.album_artist is None,
            r.date is None,
            r.comment is None,
            r.extra@.len() == 0,
    {
        VideoMetadata {
            title: None,
            description: None,
            author: None,
            album: None,
            video_id: None,
            track: None,
            tags: Vec::new(),
            album_artist: None,
            date: None,
            comment: None,
            extra: Vec::new(),
        }
    }
}

/// The type of an extract result.
#[derive(Clone, Copy, Debug, PartialEq, Eq, Structural)]
pub enum InfoType {
    /// A single video.
    Video,
    /// A list of videos.
    VideoList,
}

/// How a video's playback is described.
#[derive(Clone, Copy, Debug, PartialEq, Eq, Structural)]
pub enum VideoPlayInfoType {
    /// A single URL points to the video.
    SignleUrl,
}

/// One video's information.
#[derive(Debug, Clone)]
pub struct VideoInfo {
    /// The metadata of the video.
    pub meta: VideoMetadata,
    /// The URL of the cover image.
    pub cover: Option<String>,
    /// The type of the playback information.
    pub typ: VideoPlayInfoType,
    /// The playback URL, used when `typ` is a single URL.
    pub url: Option<String>,
}

impl VideoInfo {
    /// Whether the information is complete for its type.
    pub fn check(&self) -> (r: bool)
        ensures
            r == (self.typ == VideoPlayInfoType::SignleUrl ==> self.url is Some),
    {
        if matches!(self.typ, VideoPlayInfoType::SignleUrl) {
            if self.url.is_none() {
                return false;
            }
        }
        true
    }
}

impl Default for VideoInfo {
    fn default() -> (r: VideoInfo)
        ensures
            r.cover is None,
            r.typ == VideoPlayInfoType::SignleUrl,
            r.url is None,
    {
        VideoInfo {
            meta: VideoMetadata::default(),
            cover: None,
            typ: VideoPlayInfoType::SignleUrl,
            url: None,
        }
    }
}

/// The result of an extraction, handed to the downloader.
#[derive(Debug, Clone)]
pub struct ExtractInfo {
    pub typ: InfoType,
    pub video: Option<VideoInfo>,
    pub videos: Option<Vec<VideoInfo>>,
}

impl ExtractInfo {
    /// Whether the information is complete for its type: a single video
    /// must be present and complete, a list must be present with every
    /// entry complete.
    #[verifier::loop_isolation(false)]
    pub fn check(&self) -> (r: bool)
        ensures
            self.typ == InfoType::Video ==> r == (self.video matches Some(v) && (v.typ
                == VideoPlayInfoType::SignleUrl ==> v.url is Some)),
            self.typ == InfoType::VideoList ==> r == (self.videos matches Some(vs) && forall|
                i: int,
            |
                0 <= i < vs@.len() ==> ((#[trigger] vs@[i]).typ == VideoPlayInfoType::SignleUrl
                    ==> vs@[i].url is Some)),
    {
        match self.typ {
            InfoType::Video => {
                match &self.video {
                    Some(v) => v.check(),
                    None => false,
                }
            },
            InfoType::VideoList => {
                let vs = match &self.videos {
                    Some(vs) => vs,
                    None => {
                        return false;
                    },
                };
                let mut i: usize = 0;
                while i < vs.len()
                    invariant
                        0 <= i <= vs@.len(),
                        forall|k: int|
                            0 <= k < i ==> ((#[trigger] vs@[k]).typ == VideoPlayInfoType::SignleUrl
                                ==> vs@[k].url is Some),
                    decreases vs@.len() - i,
                {
                    if !vs[i].check() {
                        return false;
                    }
                    i += 1;
                }
                true
            },
        }
    }
}

impl Default for ExtractInfo {
    fn default() -> (r: ExtractInfo)
        ensures
            r.typ == InfoType::Video,
            r.video is None,
            r.videos is None,
    {
        ExtractInfo { typ: InfoType::Video, video: None, videos: None }
    }
}

} // verus!
