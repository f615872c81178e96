use buffer::with_buffer;
use buffer::ArrayBytes;
use buffer::ArrayVecBuffer;
use buffer::Buffer;
use buffer::BufferRefBuffer;
use buffer::BufferRef;
use buffer::CapAt;
use buffer::CapAtBuffer;
use buffer::CapacityError;
use buffer::SliceBuffer;
use buffer::SliceRefBuffer;
use buffer::ToBufferRef;
use buffer::VecBuffer;

#[test]
fn vec_grows_by_what_was_written() {
    let mut v: Vec<u8> = Vec::with_capacity(16);
    v.push(9);
    v.push(8);
    let r = with_buffer(&mut v, |mut b| {
        assert!(b.remaining() >= 14);
        b.write(&[1, 2, 3])
    });
    assert_eq!(r, Ok(()));
    assert_eq!(v, vec![9, 8, 1, 2, 3]);
    assert!(v.capacity() >= 16);
}

#[test]
fn vec_lends_its_whole_spare_capacity() {
    let mut v: Vec<u8> = Vec::with_capacity(256);
    let room = with_buffer(&mut v, |b| b.remaining());
    assert_eq!(room, v.capacity());
    assert!(room >= 256);
    assert_eq!(v.len(), 0);
}

#[test]
fn vec_is_never_reallocated() {
    let mut v: Vec<u8> = Vec::with_capacity(8);
    v.extend_from_slice(&[1, 2, 3]);
    let at = v.as_ptr();
    let room = v.capacity();
    let r = with_buffer(&mut v, |mut b| b.extend(std::iter::repeat(7u8)));
    assert_eq!(r, Err(CapacityError));
    assert_eq!(v.as_ptr(), at);
    assert_eq!(v.capacity(), room);
    assert_eq!(v.len(), room);
    assert_eq!(&v[..3], &[1, 2, 3]);
    assert!(v[3..].iter().all(|x| *x == 7));
}

#[test]
fn vec_without_spare_capacity_lends_nothing() {
    let mut v: Vec<u8> = Vec::new();
    let r = with_buffer(&mut v, |mut b| {
        assert_eq!(b.remaining(), 0);
        b.write(&[1])
    });
    assert_eq!(r, Err(CapacityError));
    assert!(v.is_empty());
}

#[test]
fn vec_untouched_view_commits_nothing() {
    let mut v: Vec<u8> = Vec::with_capacity(32);
    v.push(1);
    with_buffer(&mut v, |_b| ());
    assert_eq!(v, vec![1]);
}

#[test]
fn vec_full_write_then_read_back() {
    let mut owner: Vec<u8> = Vec::with_capacity(256);
    let r = with_buffer(&mut owner, |mut b| b.write(&[1; 256]));
    assert_eq!(r, Ok(()));
    assert_eq!(owner.len(), 256);
    assert!(owner.iter().all(|x| *x == 1));
}

#[test]
fn vec_with_a_given_capacity() {
    let mut v: Vec<u8> = Vec::with_capacity(16);
    v.extend_from_slice(&[1, 2, 3]);
    {
        let mut holder = VecBuffer::with_capacity(&mut v, 5);
        let mut b = holder.buffer();
        assert_eq!(b.remaining(), 2);
        assert_eq!(b.write(&[4, 5, 6]), Err(CapacityError));
        assert_eq!(holder.finish(), &[4, 5]);
    }
    assert_eq!(v, vec![1, 2, 3, 4, 5]);
    {
        let mut holder = VecBuffer::with_capacity(&mut v, 2);
        assert_eq!(holder.buffer().remaining(), 0);
        assert_eq!(holder.finish(), &[] as &[u8]);
    }
    assert_eq!(v, vec![1, 2, 3, 4, 5]);
    {
        let mut holder = VecBuffer::with_capacity(&mut v, 5);
        assert_eq!(holder.buffer().remaining(), 0);
        assert_eq!(holder.finish(), &[] as &[u8]);
    }
    assert_eq!(v, vec![1, 2, 3, 4, 5]);
}

#[test]
fn vec_holder_without_a_reference_commits_nothing() {
    let mut v: Vec<u8> = Vec::with_capacity(16);
    v.push(1);
    {
        let holder = VecBuffer::new(&mut v);
        assert_eq!(holder.finish(), &[] as &[u8]);
    }
    assert_eq!(v, vec![1]);
}

#[test]
fn finalization_sums_all_acquisitions() {
    let mut v: Vec<u8> = Vec::with_capacity(32);
    v.extend_from_slice(&[1, 2]);
    {
        let mut holder = VecBuffer::new(&mut v);
        {
            let mut b = holder.buffer();
            b.write(&[3, 4, 5]).unwrap();
            assert_eq!(b.initialized(), &[3, 4, 5]);
        }
        {
            let b = holder.buffer();
            assert_eq!(b.initialized(), &[] as &[u8]);
        }
        {
            let mut b = holder.to_buffer_ref();
            b.write(&[6]).unwrap();
        }
        {
            let mut b = holder.buffer();
            b.write(&[7, 8]).unwrap();
        }
        assert_eq!(holder.finish(), &[3, 4, 5, 6, 7, 8]);
    }
    assert_eq!(v, vec![1, 2, 3, 4, 5, 6, 7, 8]);
}

#[test]
fn later_acquisitions_see_less_room() {
    let mut region = [0u8; 10];
    let mut holder = SliceBuffer::new(&mut region);
    {
        let mut b = holder.buffer();
        assert_eq!(b.remaining(), 10);
        b.write(&[1, 2, 3, 4]).unwrap();
    }
    {
        let mut b = holder.buffer();
        assert_eq!(b.remaining(), 6);
        b.write(&[5]).unwrap();
    }
    {
        let b = holder.buffer();
        assert_eq!(b.remaining(), 5);
    }
    assert_eq!(holder.finish(), &[1, 2, 3, 4, 5]);
    assert_eq!(region, [1, 2, 3, 4, 5, 0, 0, 0, 0, 0]);
}

#[test]
fn slice_keeps_its_length() {
    let mut region = [0u8; 4];
    let slice: &mut [u8] = &mut region;
    let n = with_buffer(slice, |mut b| {
        b.write(&[1, 2]).unwrap();
        b.initialized().len()
    });
    assert_eq!(n, 2);
    assert_eq!(region, [1, 2, 0, 0]);
}

#[test]
fn slice_ref_is_cut_down_to_what_was_written() {
    let mut region = [0u8; 8];
    let mut slice: &mut [u8] = &mut region;
    let r = with_buffer(&mut slice, |mut b| {
        assert_eq!(b.remaining(), 8);
        b.write(&[1, 2, 3])
    });
    assert_eq!(r, Ok(()));
    assert_eq!(slice, &[1, 2, 3]);
    slice[0] = 9;
    assert_eq!(region, [9, 2, 3, 0, 0, 0, 0, 0]);
}

#[test]
fn slice_ref_untouched_becomes_empty() {
    let mut region = [5u8; 3];
    let mut slice: &mut [u8] = &mut region;
    with_buffer(&mut slice, |_b| ());
    assert!(slice.is_empty());
    assert_eq!(region, [5, 5, 5]);
}

#[test]
fn slice_ref_filled_stays_whole() {
    let mut region = [0u8; 2];
    let mut slice: &mut [u8] = &mut region;
    let r = with_buffer(&mut slice, |mut b| b.write(&[1, 2, 3]));
    assert_eq!(r, Err(CapacityError));
    assert_eq!(slice, &[1, 2]);
}

#[test]
fn slice_ref_holder_by_hand() {
    let mut region = [0u8; 5];
    let mut slice: &mut [u8] = &mut region;
    {
        let mut holder = SliceRefBuffer::new(&mut slice);
        holder.buffer().write(&[4]).unwrap();
        holder.buffer().write(&[5, 6]).unwrap();
        assert_eq!(holder.finish(), &[4, 5, 6]);
    }
    assert_eq!(slice, &[4, 5, 6]);
}

#[test]
fn arrayvec_grows_within_its_capacity() {
    let mut v: ArrayBytes<4> = ArrayBytes::new();
    assert_eq!(v.len(), 0);
    assert_eq!(v.capacity(), 4);
    let r = with_buffer(&mut v, |mut b| {
        assert_eq!(b.remaining(), 4);
        b.write(&[1, 2, 3])
    });
    assert_eq!(r, Ok(()));
    assert_eq!(v.len(), 3);
    assert_eq!(v.as_slice(), &[1, 2, 3]);
    let r = with_buffer(&mut v, |mut b| {
        assert_eq!(b.remaining(), 1);
        b.write(&[4, 5])
    });
    assert_eq!(r, Err(CapacityError));
    assert_eq!(v.len(), 4);
    assert_eq!(v.as_slice(), &[1, 2, 3, 4]);
    let room = with_buffer(&mut v, |b| b.remaining());
    assert_eq!(room, 0);
    assert_eq!(v.capacity(), 4);
}

#[test]
fn arrayvec_holder_by_hand() {
    let mut v: ArrayBytes<8> = ArrayBytes::new();
    {
        let mut holder = ArrayVecBuffer::new(&mut v);
        holder.buffer().write(&[1, 2]).unwrap();
        holder.buffer().write(&[3]).unwrap();
        assert_eq!(holder.finish(), &[1, 2, 3]);
    }
    assert_eq!(v.as_slice(), &[1, 2, 3]);
    let empty: ArrayBytes<0> = ArrayBytes::new();
    assert_eq!(empty.capacity(), 0);
    assert_eq!(empty.as_slice(), &[] as &[u8]);
}

#[test]
fn arrayvec_made_elsewhere_grows_in_place() {
    let mut made: arrayvec::ArrayVec<u8, 6> = arrayvec::ArrayVec::new();
    made.push(9);
    made.push(8);
    let mut v = ArrayBytes::from_arrayvec(made);
    assert_eq!(v.len(), 2);
    assert_eq!(v.capacity(), 6);
    assert_eq!(v.as_slice(), &[9, 8]);
    let r = with_buffer(&mut v, |mut b| {
        assert_eq!(b.remaining(), 4);
        b.write(&[1, 2, 3])
    });
    assert_eq!(r, Ok(()));
    assert_eq!(v.len(), 5);
    assert_eq!(v.as_slice(), &[9, 8, 1, 2, 3]);
    let made = v.into_arrayvec();
    assert_eq!(made.len(), 5);
    assert_eq!(made.as_slice(), &[9, 8, 1, 2, 3]);
    assert_eq!(made.capacity(), 6);
}

#[test]
fn arrayvec_untouched_view_commits_nothing() {
    let mut v: ArrayBytes<3> = ArrayBytes::new();
    with_buffer(&mut v, |_b| ());
    assert_eq!(v.len(), 0);
    let r = with_buffer(&mut v, |mut b| b.write(&[1, 2, 3, 4]));
    assert_eq!(r, Err(CapacityError));
    assert_eq!(v.as_slice(), &[1, 2, 3]);
    assert!(v.into_arrayvec().is_full());
}

#[test]
fn nested_reference_advances_the_outer_one() {
    let mut region = [0u8; 6];
    let mut count = 0usize;
    {
        let mut outer = BufferRef::new(&mut region, &mut count);
        outer.write(&[1]).unwrap();
        {
            let mut holder = BufferRefBuffer::new(&mut outer);
            {
                let mut inner = holder.buffer();
                assert_eq!(inner.remaining(), 5);
                inner.write(&[2, 3]).unwrap();
            }
            {
                let mut inner = holder.buffer();
                assert_eq!(inner.remaining(), 3);
                inner.write(&[4]).unwrap();
            }
            assert_eq!(holder.finish(), &[2, 3, 4]);
        }
        assert_eq!(outer.remaining(), 2);
        assert_eq!(outer.initialized(), &[1, 2, 3, 4]);
    }
    assert_eq!(count, 4);
}

#[test]
fn nested_twice() {
    let mut region = [0u8; 4];
    let slice: &mut [u8] = &mut region;
    with_buffer(slice, |mut a| {
        with_buffer(&mut a, |mut b| {
            with_buffer(&mut b, |mut c| {
                c.write(&[1, 2]).unwrap();
            });
            assert_eq!(b.remaining(), 2);
            b.write(&[3]).unwrap();
        });
        assert_eq!(a.remaining(), 1);
        assert_eq!(a.initialized(), &[1, 2, 3]);
    });
    assert_eq!(region, [1, 2, 3, 0]);
}

#[test]
fn cap_at_never_commits_more_than_the_cap() {
    let mut v: Vec<u8> = Vec::with_capacity(64);
    let r = with_buffer((&mut v).cap_at(5), |mut b| {
        assert_eq!(b.remaining(), 5);
        b.write(&[1; 20])
    });
    assert_eq!(r, Err(CapacityError));
    assert_eq!(v, vec![1; 5]);
}

#[test]
fn cap_at_commits_fewer_bytes_as_they_are() {
    let mut v: Vec<u8> = Vec::with_capacity(64);
    v.push(0);
    let r = with_buffer((&mut v).cap_at(5), |mut b| b.write(&[1, 2]));
    assert_eq!(r, Ok(()));
    assert_eq!(v, vec![0, 1, 2]);
}

#[test]
fn cap_at_above_the_spare_room_changes_nothing() {
    let mut region = [0u8; 3];
    let slice: &mut [u8] = &mut region;
    let room = with_buffer(slice.cap_at(10), |b| b.remaining());
    assert_eq!(room, 3);
    let mut v: ArrayBytes<4> = ArrayBytes::new();
    let room = with_buffer((&mut v).cap_at(0), |b| b.remaining());
    assert_eq!(room, 0);
    assert_eq!(v.len(), 0);
}

#[test]
fn cap_at_twice_takes_the_smaller() {
    let mut region = [0u8; 9];
    let slice: &mut [u8] = &mut region;
    let room = with_buffer(slice.cap_at(6).cap_at(4), |b| b.remaining());
    assert_eq!(room, 4);
    let slice: &mut [u8] = &mut region;
    let room = with_buffer(slice.cap_at(2).cap_at(4), |b| b.remaining());
    assert_eq!(room, 2);
}

#[test]
fn cap_at_holder_by_hand() {
    let mut v: Vec<u8> = Vec::with_capacity(16);
    {
        let capped: CapAt<&mut Vec<u8>> = CapAt::new(&mut v, 3);
        let mut holder = CapAtBuffer::new(capped);
        assert_eq!(holder.buffer().write(&[1, 2, 3, 4]), Err(CapacityError));
        assert_eq!(holder.buffer().write(&[5]), Ok(()));
        assert_eq!(holder.finish(), &[1, 2, 3, 5]);
    }
    assert_eq!(v, vec![1, 2, 3, 5]);
}

#[test]
fn protocol_through_the_traits() {
    let mut v: Vec<u8> = Vec::with_capacity(8);
    {
        let mut holder = (&mut v).to_to_buffer_ref();
        holder.to_buffer_ref().write(&[1]).unwrap();
        assert_eq!(ToBufferRef::finish(holder), &[1]);
    }
    assert_eq!(v, vec![1]);
}
