//! Binary reading and writing for Metroid Prime game data, and the
//! decisions of the randomprime patcher that do not need the game files.
pub mod endian;
pub mod reader;
pub mod writer;
pub mod primitive_types;
pub mod padding;
pub mod array;
pub mod lazy_array;
pub mod iterator_array;
pub mod uncached;
pub mod utf16_string;
pub mod txtr;
pub mod txtr_image;
pub mod txtr_file;
pub mod binary_patcher;
pub mod dol_patcher;
pub mod starting_items;
pub mod text;
pub mod world;
pub mod pickup_meta;
pub mod elevators;
pub mod patch_config;
pub mod banner;
pub mod ciso;
pub mod gcz;
pub mod extern_assets;
pub mod cow;
pub mod dap;
pub mod resource_info;
pub mod patcher_state;
pub mod artifact_temple;
pub mod resource_data;
