//! Structured records from the output of `pmap -XX -p <PID>`, their
//! aggregation into named categories, and queries over the parsed records.

pub mod category;
pub mod error;
pub mod file_info;
pub mod flags;
pub mod format;
pub mod mapping_kind;
pub mod number;
pub mod order;
pub mod permissions;
pub mod pmap;
pub mod policy;
pub mod regions;
pub mod text;
pub mod vm_flags;

pub use crate::category::PMapCategory;
pub use crate::category::PMapCategoryVec;
pub use crate::category::Totals;
pub use crate::error::Field;
pub use crate::error::ParseError;
pub use crate::file_info::FileInfo;
pub use crate::flags::BitFlags;
pub use crate::flags::Flag;
pub use crate::format::MyDisplay;
pub use crate::format::MyFromStr;
pub use crate::mapping_kind::MappingKind;
pub use crate::order::Measured;
pub use crate::permissions::Permissions;
pub use crate::pmap::PMap;
pub use crate::pmap::PMapVec;
pub use crate::pmap::MIN_SIZE_TO_DISPLAY;
pub use crate::policy::category_lookup;
pub use crate::policy::get_categories_from_memory_pages;
pub use crate::regions::parse_hex;
pub use crate::regions::parse_memory_region;
pub use crate::regions::parse_memory_regions;
pub use crate::regions::set_literal;
pub use crate::regions::RegionLine;
pub use crate::regions::ThreadStacks;
pub use crate::regions::DEFAULT_THREAD_STACK_SIZE;
pub use crate::vm_flags::VirtualMemoryFlags;
