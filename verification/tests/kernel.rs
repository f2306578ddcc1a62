use std::sync::Arc;

use coral::abi::WasmType;
use coral::component::{call_registers, AsArgs, Args, ComponentFunc, RunStatus};
use coral::entity::{ComponentIndex, FuncIndex, InstanceIndex, ModuleIndex, VmaIndex};
use coral::kernel_objects::{KernelObjectCollection, KoIndex};
use coral::memory::{
    BootInfoFrameAllocator, MemoryRegion, VirtualMemoryMap, Vma, VmaAllocator, VmaKind, PAGE_SIZE,
};
use coral::runtime::InstantiationCtx;
use coral::syscalls::{
    get_component, get_module, get_vma, handle_kind, vma_as_buf, vma_window, vma_write, ExternRef,
    HandleKind, SyscallResult,
};
use coral::types::RefType;

#[test]
fn bytes_to_pages() {
    assert_eq!(Vma::bytes_to_pages(0), 0);
    assert_eq!(Vma::bytes_to_pages(1), 1);
    assert_eq!(Vma::bytes_to_pages(PAGE_SIZE - 1), 1);
    assert_eq!(Vma::bytes_to_pages(PAGE_SIZE), 1);
    assert_eq!(Vma::bytes_to_pages(PAGE_SIZE + 1), 2);
}

#[test]
fn vma_from_raw() {
    let vma = Vma::from_raw(0x8000, 0x1500);
    assert_eq!(vma.start(), 0x8000);
    assert_eq!(vma.size(), 0x1500);
    assert_eq!(vma.nb_pages(), 2);
    assert_eq!(vma.kind(), VmaKind::Static);
}

fn l4_table(last_used: usize) -> Vec<bool> {
    let mut used = vec![false; 512];
    used[0] = true;
    used[last_used] = true;
    used
}

#[test]
fn memory_map_from_mapping() {
    let map = VirtualMemoryMap::new_from_mapping(&l4_table(2));
    assert_eq!(map.cursor(), 3 << 39);
    assert_eq!(map.end_at(), 0xffff_ff80_0000_0000);
}

#[test]
fn memory_map_upper_half_is_sign_extended() {
    let map = VirtualMemoryMap::new_from_mapping(&l4_table(300));
    assert_eq!(map.cursor(), 0xffff_0000_0000_0000 | (301 << 39));
}

#[test]
fn memory_map_with_more_entries_than_a_table_is_empty() {
    let mut used = vec![false; 600];
    used[550] = true;
    let map = VirtualMemoryMap::new_from_mapping(&used);
    assert_eq!(map.cursor(), 0);
    assert_eq!(map.end_at(), 0);
}

#[test]
fn reserve_area_moves_the_cursor_page_by_page() {
    let mut map = VirtualMemoryMap::new_from_mapping(&l4_table(2));
    let a = map.reserve_area(0x1500).unwrap();
    assert_eq!(a, 3 << 39);
    assert_eq!(map.cursor(), (3 << 39) + 0x2000);
    let b = map.reserve_area(1).unwrap();
    assert_eq!(b, (3 << 39) + 0x2000);
    assert_eq!(map.cursor(), (3 << 39) + 0x3000);
}

#[test]
fn reserve_area_fails_past_the_end() {
    let mut map = VirtualMemoryMap::new_from_mapping(&l4_table(510));
    assert_eq!(map.cursor(), map.end_at());
    assert_eq!(map.reserve_area(1), Err(()));
    assert_eq!(map.cursor(), 0xffff_ff80_0000_0000);
}

#[test]
fn frame_allocator_walks_usable_regions() {
    let regions = vec![
        MemoryRegion { start: 0, end: 0x3000, usable: true },
        MemoryRegion { start: 0x3000, end: 0x5000, usable: false },
        MemoryRegion { start: 0x5000, end: 0x6800, usable: true },
    ];
    let mut frames = BootInfoFrameAllocator::init(regions);
    assert_eq!(frames.allocate_frame(), Some(0));
    assert_eq!(frames.allocate_frame(), Some(0x1000));
    assert_eq!(frames.allocate_frame(), Some(0x2000));
    assert_eq!(frames.allocate_frame(), Some(0x5000));
    assert_eq!(frames.allocate_frame(), Some(0x6000));
    assert_eq!(frames.allocate_frame(), None);
}

#[test]
fn frame_allocator_aligns_frames_down() {
    let regions = vec![MemoryRegion { start: 0x1234, end: 0x3000, usable: true }];
    let mut frames = BootInfoFrameAllocator::init(regions);
    assert_eq!(frames.allocate_frame(), Some(0x1000));
    assert_eq!(frames.allocate_frame(), Some(0x2000));
    assert_eq!(frames.allocate_frame(), None);
}

#[test]
fn externref_abi() {
    assert_eq!(ExternRef::Invalid.into_abi(), 0);
    assert_eq!(ExternRef::Vma(VmaIndex(3)).into_abi(), 0x3_0000_0001);
    assert_eq!(ExternRef::Module(ModuleIndex(1)).into_abi(), 0x1_0000_0002);
    assert_eq!(ExternRef::Component(ComponentIndex(7)).into_abi(), 0x7_0000_0003);
    assert_eq!(ExternRef::from_abi(0x3_0000_0001), ExternRef::Vma(VmaIndex(3)));
    assert_eq!(ExternRef::from_abi(0), ExternRef::Invalid);
}

#[test]
fn externref_roundtrip() {
    for e in [
        ExternRef::Invalid,
        ExternRef::Vma(VmaIndex(u32::MAX)),
        ExternRef::Module(ModuleIndex(0)),
        ExternRef::Component(ComponentIndex(42)),
    ] {
        assert_eq!(ExternRef::from_abi(e.into_abi()), e);
    }
}

#[test]
fn syscall_results_and_kinds() {
    assert_eq!(SyscallResult::Success.into_abi(), 0);
    assert_eq!(SyscallResult::InvalidParams.into_abi(), 1);
    assert_eq!(SyscallResult::InternalError.into_abi(), 2);
    assert_eq!(SyscallResult::UnknownError.into_abi(), 3);
    assert_eq!(HandleKind::Component.into_abi(), 3);
    assert_eq!(handle_kind(ExternRef::Invalid), HandleKind::Invalid);
    assert_eq!(handle_kind(ExternRef::Vma(VmaIndex(0))), HandleKind::Vma);
    assert_eq!(handle_kind(ExternRef::Module(ModuleIndex(0))), HandleKind::Module);
    assert_eq!(handle_kind(ExternRef::Component(ComponentIndex(0))), HandleKind::Component);
}

#[test]
fn kernel_object_collection() {
    let mut vmas: KernelObjectCollection<Vec<u8>, VmaIndex> = KernelObjectCollection::new();
    let a = vmas.insert(Arc::new(vec![1, 2, 3]));
    let b = vmas.insert(Arc::new(vec![4]));
    assert_eq!(a.into_usize(), 0);
    assert_eq!(b.into_usize(), 1);
    assert_eq!(b.into_externref(), ExternRef::Vma(VmaIndex(1)));
    assert_eq!(*vmas.get(a).unwrap(), vec![1, 2, 3]);
    assert_eq!(*vmas.get(b).unwrap(), vec![4]);
    assert!(vmas.get(VmaIndex(2)).is_none());
    assert_eq!(vmas.len(), 2);
}

#[test]
fn kernel_object_get_returns_the_same_object() {
    let mut modules: KernelObjectCollection<String, ModuleIndex> = KernelObjectCollection::new();
    let obj = Arc::new(String::from("module"));
    let idx = modules.insert(Arc::clone(&obj));
    assert!(Arc::ptr_eq(&modules.get(idx).unwrap(), &obj));
}

#[test]
fn handle_lookups() {
    let mut vmas: KernelObjectCollection<u32, VmaIndex> = KernelObjectCollection::new();
    vmas.insert(Arc::new(10));
    let mut modules: KernelObjectCollection<u32, ModuleIndex> = KernelObjectCollection::new();
    modules.insert(Arc::new(20));
    let mut components: KernelObjectCollection<u32, ComponentIndex> =
        KernelObjectCollection::new();
    components.insert(Arc::new(30));

    assert_eq!(*get_vma(&vmas, ExternRef::Vma(VmaIndex(0))).unwrap(), 10);
    assert_eq!(
        get_vma(&vmas, ExternRef::Vma(VmaIndex(1))).err(),
        Some(SyscallResult::InvalidParams)
    );
    assert_eq!(
        get_vma(&vmas, ExternRef::Module(ModuleIndex(0))).err(),
        Some(SyscallResult::InvalidParams)
    );
    assert_eq!(*get_module(&modules, ExternRef::Module(ModuleIndex(0))).unwrap(), 20);
    assert_eq!(
        get_module(&modules, ExternRef::Invalid).err(),
        Some(SyscallResult::InvalidParams)
    );
    assert_eq!(
        *get_component(&components, ExternRef::Component(ComponentIndex(0))).unwrap(),
        30
    );
    assert_eq!(
        get_component(&components, ExternRef::Vma(VmaIndex(0))).err(),
        Some(SyscallResult::InvalidParams)
    );
}

#[test]
fn vma_windows() {
    assert_eq!(vma_window(10, 2, 3), Ok((2, 5)));
    assert_eq!(vma_window(10, 10, 0), Ok((10, 10)));
    assert_eq!(vma_window(10, 8, 3), Err(SyscallResult::InvalidParams));
    assert_eq!(vma_window(10, u64::MAX, 2), Err(SyscallResult::InvalidParams));
    let area = [1u8, 2, 3, 4, 5];
    assert_eq!(vma_as_buf(&area, 1, 3), Ok(&area[1..4]));
    assert_eq!(vma_as_buf(&area, 4, 2), Err(SyscallResult::InvalidParams));
}

#[test]
fn vma_write_copies_between_areas() {
    let source = [1u8, 2, 3, 4];
    let mut target = [0u8; 6];
    assert_eq!(vma_write(&source, &mut target, 1, 2, 2), SyscallResult::Success);
    assert_eq!(target, [0, 0, 2, 3, 0, 0]);
}

#[test]
fn vma_write_rejects_windows_out_of_the_areas() {
    let source = [1u8, 2, 3, 4];
    let mut target = [0u8; 6];
    assert_eq!(vma_write(&source, &mut target, 3, 0, 2), SyscallResult::InvalidParams);
    assert_eq!(vma_write(&source, &mut target, 0, 5, 2), SyscallResult::InvalidParams);
    assert_eq!(target, [0u8; 6]);
}

#[test]
fn first_externref_table_holds_the_heaps() {
    let mut ctx = InstantiationCtx::new();
    ctx.push_heap(VmaIndex(1));
    ctx.push_heap(VmaIndex(2));
    let funcs = ctx.alloc_table(2, None, RefType::FuncRef);
    assert_eq!(funcs, vec![0, 0]);
    let first = ctx.alloc_table(1, Some(3), RefType::ExternRef);
    assert_eq!(
        first,
        vec![
            ExternRef::Vma(VmaIndex(1)).into_abi(),
            ExternRef::Vma(VmaIndex(2)).into_abi(),
            0
        ]
    );
    let second = ctx.alloc_table(2, None, RefType::ExternRef);
    assert_eq!(second, vec![0, 0]);
}

#[test]
fn small_externref_table_holds_the_first_heaps() {
    let mut ctx = InstantiationCtx::new();
    ctx.push_heap(VmaIndex(5));
    ctx.push_heap(VmaIndex(6));
    let table = ctx.alloc_table(1, None, RefType::ExternRef);
    assert_eq!(table, vec![ExternRef::Vma(VmaIndex(5)).into_abi()]);
}

#[test]
fn args_and_registers() {
    let args = Args::new().push(1u64).push(2u32).push(3u8);
    assert_eq!(args.as_slice(), &[1, 2, 3]);
    assert_eq!(args.len(), 3);
    let regs = call_registers(args.as_slice(), 0xc0ffee, 3, 1);
    assert_eq!(regs, [1, 2, 3, 0xc0ffee, 0, 0]);
    let regs = call_registers(&[], 0xc0ffee, 0, 0);
    assert_eq!(regs, [0xc0ffee, 0, 0, 0, 0, 0]);
    let five = Args::new().push(1u8).push(2u8).push(3u8).push(4u8).push(5u8);
    assert_eq!(call_registers(five.as_slice(), 9, 5, 2), [1, 2, 3, 4, 5, 9]);
}

#[test]
fn as_args() {
    assert_eq!(7u16.as_args().as_slice(), &[7]);
    assert_eq!(().as_args().as_slice(), &[] as &[u64]);
    let f = ComponentFunc::new(InstanceIndex(1), FuncIndex(2));
    assert_eq!(f.instance, InstanceIndex(1));
    assert_eq!(f.func, FuncIndex(2));
    RunStatus::Completed.ok();
}

#[test]
fn vma_allocator_gives_each_page_a_frame() {
    let regions = vec![MemoryRegion { start: 0x10000, end: 0x14000, usable: true }];
    let mut alloc = VmaAllocator {
        memory_map: VirtualMemoryMap::new_from_mapping(&l4_table(2)),
        frame_allocator: BootInfoFrameAllocator::init(regions),
    };
    let area = alloc.with_capacity(0x1800).unwrap();
    assert_eq!(area.vma.start(), 3 << 39);
    assert_eq!(area.vma.size(), 0x1800);
    assert_eq!(area.vma.nb_pages(), 2);
    assert_eq!(area.pages, vec![(3 << 39, 0x10000), ((3 << 39) + 0x1000, 0x11000)]);
    assert_eq!(alloc.memory_map.cursor(), (3 << 39) + 0x2000);
    let next = alloc.with_capacity(0x1000).unwrap();
    assert_eq!(next.pages, vec![((3 << 39) + 0x2000, 0x12000)]);
}

#[test]
fn vma_allocator_fails_when_frames_run_out() {
    let regions = vec![MemoryRegion { start: 0x10000, end: 0x11000, usable: true }];
    let mut alloc = VmaAllocator {
        memory_map: VirtualMemoryMap::new_from_mapping(&l4_table(2)),
        frame_allocator: BootInfoFrameAllocator::init(regions),
    };
    assert!(alloc.with_capacity(0x2000).is_err());
    // The area stays reserved.
    assert_eq!(alloc.memory_map.cursor(), (3 << 39) + 0x2000);
}

#[test]
fn vma_allocator_fails_past_the_end_of_the_map() {
    let regions = vec![MemoryRegion { start: 0x10000, end: 0x11000, usable: true }];
    let mut alloc = VmaAllocator {
        memory_map: VirtualMemoryMap::new_from_mapping(&l4_table(510)),
        frame_allocator: BootInfoFrameAllocator::init(regions),
    };
    assert!(alloc.with_capacity(0x1000).is_err());
    assert_eq!(alloc.memory_map.cursor(), alloc.memory_map.end_at());
    assert_eq!(alloc.frame_allocator.allocate_frame(), Some(0x10000));
}

#[test]
fn exit_codes_of_the_emulator() {
    assert_eq!(coral::qemu::ExitCode::Success.code(), 0x10);
    assert_eq!(coral::qemu::ExitCode::Failed.code(), 0x11);
}
