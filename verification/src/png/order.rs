//! The order in which the chunks of a file must come.

use vstd::prelude::*;
use crate::encoders::{outcome, EncoderError, Failure};

verus! {

/// What a chunk counts as when the order of the chunks is checked.
#[derive(Debug, Clone, Copy, PartialEq, Eq, Structural)]
pub enum ChunkRole {
    /// The image header.
    Header,
    /// A piece of the compressed image data.
    ImageData,
    /// The end marker.
    End,
    /// Any other chunk.
    Other,
}

/// What has been seen of a file after some of its chunks.
#[derive(Debug, Clone, Copy, PartialEq, Eq, Structural)]
pub struct Progress {
    /// The header stood in the first place.
    pub has_ihdr: bool,
    /// A chunk of image data was seen.
    pub has_idat: bool,
    /// The end marker was seen in the last place.
    pub has_iend: bool,
    /// Another chunk followed a chunk of image data.
    pub has_ended_idat: bool,
}

/// The failure for an empty sequence of chunks.
pub open spec fn no_chunks_given() -> Failure {
    Failure::InvalidData("No chunks given"@)
}

/// The failure for chunks that could not be read in the first place.
pub open spec fn no_chunks() -> Failure {
    Failure::InvalidData("No chunks"@)
}

/// The failure for chunks without a header in the first place.
pub open spec fn no_header() -> Failure {
    Failure::InvalidData("No IHDR chunk"@)
}

/// The failure for chunks without image data.
pub open spec fn no_image_data() -> Failure {
    Failure::InvalidData("No IDAT chunks"@)
}

/// The failure for chunks without an end marker in the last place.
pub open spec fn no_end_marker() -> Failure {
    Failure::InvalidData("No IEND chunk"@)
}

/// The failure for a header behind a first chunk that is none.
pub open spec fn header_not_first() -> Failure {
    Failure::InvalidData("IHDR chunk must be first"@)
}

/// The failure for a second header.
pub open spec fn multiple_headers() -> Failure {
    Failure::InvalidImageDimensions("Multiple IHDR chunks"@)
}

/// The failure for an end marker before the last place.
pub open spec fn end_marker_not_last() -> Failure {
    Failure::InvalidData("IEND chunk must be last"@)
}

/// The failure for image data behind the end of the run of image data.
pub open spec fn image_data_not_contiguous() -> Failure {
    Failure::InvalidImageDimensions("IDAT chunk after end of IDAT block"@)
}

impl Progress {
    /// Nothing seen yet.
    pub open spec fn start() -> Progress {
        Progress { has_ihdr: false, has_idat: false, has_iend: false, has_ended_idat: false }
    }

    /// The progress after one more chunk, which stands at `index` among `count`
    /// chunks, or the rule that this chunk breaks. A chunk of image data after
    /// the run of image data has ended is reported before anything else.
    pub open spec fn step(self, index: int, role: ChunkRole, count: int) -> Result<
        Progress,
        Failure,
    > {
        if role == ChunkRole::ImageData && self.has_ended_idat {
            Err(image_data_not_contiguous())
        } else {
            let ended = self.has_ended_idat || (role != ChunkRole::ImageData && self.has_idat);
            match role {
                ChunkRole::Header => if index == 0 {
                    Ok(Progress { has_ihdr: true, has_ended_idat: ended, ..self })
                } else if self.has_ihdr {
                    Err(multiple_headers())
                } else {
                    Err(header_not_first())
                },
                ChunkRole::End => if index != count - 1 {
                    Err(end_marker_not_last())
                } else {
                    Ok(Progress { has_iend: true, has_ended_idat: ended, ..self })
                },
                ChunkRole::ImageData => Ok(Progress { has_idat: true, ..self }),
                ChunkRole::Other => Ok(Progress { has_ended_idat: ended, ..self }),
            }
        }
    }

    /// What is still missing when the chunks have run out, if anything: the
    /// header first, then the image data, then the end marker.
    pub open spec fn close(self) -> Result<(), Failure> {
        if !self.has_ihdr {
            Err(no_header())
        } else if !self.has_idat {
            Err(no_image_data())
        } else if !self.has_iend {
            Err(no_end_marker())
        } else {
            Ok(())
        }
    }

    /// Nothing seen yet.
    pub fn new() -> (p: Progress)
        ensures
            p == Progress::start(),
    {
        Progress { has_ihdr: false, has_idat: false, has_iend: false, has_ended_idat: false }
    }

    /// Takes in the chunk at `index` among `count` chunks.
    pub fn advance(self, index: usize, role: ChunkRole, count: usize) -> (next: Result<
        Progress,
        EncoderError,
    >)
        ensures
            outcome(next) == self.step(index as int, role, count as int),
    {
        let mut next = self;
        match role {
            ChunkRole::ImageData => {
                if self.has_ended_idat {
                    return Err(
                        EncoderError::invalid_dimensions("IDAT chunk after end of IDAT block"),
                    );
                }
            },
            _ => {
                if self.has_idat {
                    next.has_ended_idat = true;
                }
            },
        }
        match role {
            ChunkRole::Header => {
                if index == 0 {
                    next.has_ihdr = true;
                } else if self.has_ihdr {
                    return Err(EncoderError::invalid_dimensions("Multiple IHDR chunks"));
                } else {
                    return Err(EncoderError::invalid_data("IHDR chunk must be first"));
                }
            },
            ChunkRole::End => {
                if count == 0 || index != count - 1 {
                    return Err(EncoderError::invalid_data("IEND chunk must be last"));
                }
                next.has_iend = true;
            },
            ChunkRole::ImageData => {
                next.has_idat = true;
            },
            ChunkRole::Other => {},
        }
        Ok(next)
    }

    /// Says what is missing when the chunks have run out.
    pub fn finish(self) -> (done: Result<(), EncoderError>)
        ensures
            outcome(done) == self.close(),
    {
        if !self.has_ihdr {
            return Err(EncoderError::invalid_data("No IHDR chunk"));
        }
        if !self.has_idat {
            return Err(EncoderError::invalid_data("No IDAT chunks"));
        }
        if !self.has_iend {
            return Err(EncoderError::invalid_data("No IEND chunk"));
        }
        Ok(())
    }
}

/// The progress after the first `n` chunks, or the failure of the first chunk
/// among them that breaks a rule.
pub open spec fn scan(roles: Seq<ChunkRole>, n: int) -> Result<Progress, Failure>
    decreases n,
{
    if n <= 0 {
        Ok(Progress::start())
    } else {
        match scan(roles, n - 1) {
            Err(e) => Err(e),
            Ok(progress) => progress.step(n - 1, roles[n - 1], roles.len() as int),
        }
    }
}

/// Whether the chunks stand in an acceptable order, and if not, why: an empty
/// sequence first, then the first chunk that breaks a rule, then what is missing.
pub open spec fn order_check(roles: Seq<ChunkRole>) -> Result<(), Failure> {
    if roles.len() == 0 {
        Err(no_chunks_given())
    } else {
        match scan(roles, roles.len() as int) {
            Err(e) => Err(e),
            Ok(progress) => progress.close(),
        }
    }
}

/// The chunk at `i` is image data.
pub open spec fn is_image_data(roles: Seq<ChunkRole>, i: int) -> bool {
    roles[i] == ChunkRole::ImageData
}

/// Among the first `n` chunks there is image data.
pub open spec fn has_image_data(roles: Seq<ChunkRole>, n: int) -> bool {
    exists|i: int| 0 <= i < n && is_image_data(roles, i)
}

/// Among the first `n` chunks, some chunk that is not image data follows one that is.
pub open spec fn run_has_ended(roles: Seq<ChunkRole>, n: int) -> bool {
    exists|i: int, j: int| 0 <= i < j < n && is_image_data(roles, i) && !is_image_data(roles, j)
}

/// Among the first `n` chunks, the chunks of image data stand in one run.
pub open spec fn contiguous(roles: Seq<ChunkRole>, n: int) -> bool {
    forall|i: int, j: int, k: int|
        #![trigger is_image_data(roles, i), is_image_data(roles, j), is_image_data(roles, k)]
        0 <= i < j < k < n && is_image_data(roles, i) && is_image_data(roles, k)
            ==> is_image_data(roles, j)
}

/// The rules on the order of chunks: there is a chunk; the header stands first
/// and nowhere else; the end marker stands last and nowhere else; there is image
/// data, in one run.
pub open spec fn well_ordered(roles: Seq<ChunkRole>) -> bool {
    &&& roles.len() > 0
    &&& roles[0] == ChunkRole::Header
    &&& forall|i: int| 0 < i < roles.len() ==> #[trigger] roles[i] != ChunkRole::Header
    &&& roles[roles.len() - 1] == ChunkRole::End
    &&& forall|i: int| 0 <= i < roles.len() - 1 ==> #[trigger] roles[i] != ChunkRole::End
    &&& has_image_data(roles, roles.len() as int)
    &&& contiguous(roles, roles.len() as int)
}

/// Among the first `n` chunks no chunk breaks a rule by where it stands.
pub open spec fn prefix_in_order(roles: Seq<ChunkRole>, n: int) -> bool {
    &&& forall|i: int| 0 < i < n ==> #[trigger] roles[i] != ChunkRole::Header
    &&& forall|i: int| 0 <= i < n && i != roles.len() - 1 ==> #[trigger] roles[i] != ChunkRole::End
    &&& contiguous(roles, n)
}

/// What the progress after `n` chunks records.
pub open spec fn records(progress: Progress, roles: Seq<ChunkRole>, n: int) -> bool {
    &&& progress.has_ihdr <==> n > 0 && roles[0] == ChunkRole::Header
    &&& progress.has_idat <==> has_image_data(roles, n)
    &&& progress.has_iend <==> n == roles.len() && n > 0 && roles[n - 1] == ChunkRole::End
    &&& progress.has_ended_idat <==> run_has_ended(roles, n)
}

/// The scan of a prefix succeeds exactly if no chunk of the prefix breaks a
/// rule by where it stands, and its progress then records what the prefix holds.
pub proof fn lemma_scan_meaning(roles: Seq<ChunkRole>, n: int)
    requires
        0 <= n <= roles.len(),
    ensures
        scan(roles, n) is Ok <==> prefix_in_order(roles, n),
        scan(roles, n) matches Ok(progress) ==> records(progress, roles, n),
    decreases n,
{
    if n > 0 {
        lemma_scan_meaning(roles, n - 1);
        let m = n - 1;
        let role = roles[m];
        match scan(roles, m) {
            Err(_) => {
                assert(!prefix_in_order(roles, m));
                assert(!prefix_in_order(roles, n)) by {
                    if prefix_in_order(roles, n) {
                        assert(contiguous(roles, m));
                        assert(prefix_in_order(roles, m));
                    }
                }
            },
            Ok(progress) => {
                assert(prefix_in_order(roles, m));
                assert(records(progress, roles, m));
                // Chunks of image data before `m`, and what closed their run.
                if has_image_data(roles, m) {
                    let i = choose|i: int| 0 <= i < m && is_image_data(roles, i);
                    assert(is_image_data(roles, i));
                    assert(has_image_data(roles, n));
                    if !is_image_data(roles, m) {
                        assert(0 <= i < m < n && is_image_data(roles, i) && !is_image_data(
                            roles,
                            m,
                        ));
                        assert(run_has_ended(roles, n));
                    }
                }
                if run_has_ended(roles, m) {
                    let (i, j) = choose|i: int, j: int|
                        0 <= i < j < m && is_image_data(roles, i) && !is_image_data(roles, j);
                    assert(0 <= i < j < n && is_image_data(roles, i) && !is_image_data(roles, j));
                    assert(run_has_ended(roles, n));
                    if is_image_data(roles, m) {
                        assert(!contiguous(roles, n));
                    }
                }
                if is_image_data(roles, m) {
                    assert(has_image_data(roles, n));
                }
                if has_image_data(roles, n) && !has_image_data(roles, m) {
                    let i = choose|i: int| 0 <= i < n && is_image_data(roles, i);
                    assert(i == m);
                }
                if run_has_ended(roles, n) && !run_has_ended(roles, m) {
                    let (i, j) = choose|i: int, j: int|
                        0 <= i < j < n && is_image_data(roles, i) && !is_image_data(roles, j);
                    assert(j == m);
                    assert(has_image_data(roles, m));
                }
                if !run_has_ended(roles, m) || !is_image_data(roles, m) {
                    assert(contiguous(roles, n)) by {
                        assert forall|i: int, j: int, k: int|
                            #![trigger is_image_data(roles, i), is_image_data(roles, j), is_image_data(roles, k)]
                            0 <= i < j < k < n && is_image_data(roles, i) && is_image_data(
                                roles,
                                k,
                            ) implies is_image_data(roles, j) by {
                            if k == m {
                                if !is_image_data(roles, j) {
                                    assert(run_has_ended(roles, m));
                                }
                            }
                        }
                    }
                }
                match progress.step(m, role, roles.len() as int) {
                    Ok(next) => {
                        assert(prefix_in_order(roles, n));
                        assert(records(next, roles, n));
                    },
                    Err(_) => {
                        assert(!prefix_in_order(roles, n)) by {
                            if role == ChunkRole::Header && m > 0 {
                                assert(roles[m] == ChunkRole::Header);
                            }
                            if role == ChunkRole::End && m != roles.len() - 1 {
                                assert(roles[m] == ChunkRole::End);
                            }
                        }
                    },
                }
            },
        }
    } else {
        assert(!has_image_data(roles, 0));
        assert(!run_has_ended(roles, 0));
    }
}

/// The check of the order succeeds on exactly the sequences that keep the rules.
pub proof fn lemma_order_check_sound_and_complete(roles: Seq<ChunkRole>)
    ensures
        order_check(roles) is Ok <==> well_ordered(roles),
{
    let n = roles.len() as int;
    if n > 0 {
        lemma_scan_meaning(roles, n);
        if well_ordered(roles) {
            assert(prefix_in_order(roles, n));
        }
        if order_check(roles) is Ok {
            assert(forall|i: int| 0 <= i < n - 1 ==> #[trigger] roles[i] != ChunkRole::End);
        }
    }
}

/// Checks the order of the chunks whose roles are given.
pub fn check_order(roles: &[ChunkRole]) -> (checked: Result<(), EncoderError>)
    ensures
        outcome(checked) == order_check(roles@),
        checked is Ok <==> well_ordered(roles@),
{
    proof {
        lemma_order_check_sound_and_complete(roles@);
    }
    let count = roles.len();
    if count == 0 {
        return Err(EncoderError::invalid_data("No chunks given"));
    }
    let mut progress = Progress::new();
    let mut index: usize = 0;
    while index < count
        invariant
            index <= count == roles@.len(),
            scan(roles@, index as int) == Ok::<Progress, Failure>(progress),
        decreases count - index,
    {
        progress = match progress.advance(index, roles[index], count) {
            Ok(next) => next,
            Err(e) => {
                proof {
                    lemma_scan_fails_on(roles@, index as int + 1, count as int);
                    lemma_order_check_sound_and_complete(roles@);
                }
                return Err(e);
            },
        };
        index = index + 1;
    }
    progress.finish()
}

/// A scan that has failed on a prefix fails in the same way on every longer one.
proof fn lemma_scan_fails_on(roles: Seq<ChunkRole>, n: int, m: int)
    requires
        0 <= n <= m,
        scan(roles, n) is Err,
    ensures
        scan(roles, m) == scan(roles, n),
    decreases m - n,
{
    if n < m {
        lemma_scan_fails_on(roles, n, m - 1);
    }
}

} // verus!
