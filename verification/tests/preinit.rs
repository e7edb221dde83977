// A deliberately ill-behaved source, implemented here outside the
// library: it scribbles past the bytes it actually reports as read, then
// inspects the region it is offered next.  This observes two promises of
// the drain operation: bytes beyond the committed prefix never become
// visible in the buffer, and the destination region is zero-filled
// before being exposed exactly when the source asks for that.

use read_to_end::buffer::ByteBuffer;
use read_to_end::drain::{read_to_end_internal, DrainStatus};
use read_to_end::source::{ReadPoll, Source};

struct JunkThenObserve {
    preinit: bool,
    call: usize,
    observed: Option<u8>,
}

impl Source for JunkThenObserve {
    type Err = u64;

    fn requires_preinit(&self) -> bool {
        self.preinit
    }

    fn poll_read(&mut self, dest: &mut Vec<u8>) -> ReadPoll<u64> {
        self.call += 1;
        match self.call {
            1 => {
                let junk = dest.len().min(4);
                for i in 0..junk {
                    dest[i] = 7;
                }
                // Report fewer bytes than were scribbled.
                ReadPoll::Ready(2)
            }
            2 => {
                self.observed = Some(dest[0]);
                ReadPoll::Ready(0)
            }
            _ => ReadPoll::Ready(0),
        }
    }
}

#[test]
fn untrusted_source_sees_zero_filled_region() {
    let mut src = JunkThenObserve { preinit: true, call: 0, observed: None };
    let mut buf = ByteBuffer::new();
    let r = read_to_end_internal(&mut src, &mut buf);
    assert!(matches!(r, DrainStatus::Done));
    assert_eq!(buf.len(), 2);
    assert_eq!(src.observed, Some(0));
    // The scribbled-but-uncommitted bytes never reach the caller.
    assert_eq!(buf.into_vec(), vec![7, 7]);
}

#[test]
fn trusted_source_sees_stale_bytes_unzeroed() {
    let mut src = JunkThenObserve { preinit: false, call: 0, observed: None };
    let mut buf = ByteBuffer::new();
    let r = read_to_end_internal(&mut src, &mut buf);
    assert!(matches!(r, DrainStatus::Done));
    assert_eq!(buf.len(), 2);
    // No zero-fill step ran: the stale scribble is still there.
    assert_eq!(src.observed, Some(7));
    assert_eq!(buf.into_vec(), vec![7, 7]);
}
