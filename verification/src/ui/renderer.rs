//! Renderer errors.
//!
//! The GPU renderer itself lives with the application; the library holds
//! the error type and its messages.
use vstd::prelude::*;
use crate::strings::push_str;

verus! {

/// An error raised while setting up or running the renderer.
#[derive(Debug)]
pub enum RendererError {
    /// The window surface could not be created.
    SurfaceCreation(String),
    /// No graphics adapter was granted.
    AdapterRequest(String),
    /// No graphics device was granted.
    DeviceRequest(String),
    /// The surface could not be configured.
    SurfaceConfiguration,
    /// The next frame's texture could not be acquired.
    TextureAcquisition(String),
    /// Rendering failed.
    Render(String),
    /// Text rendering failed (the text renderer's message).
    Text(String),
}

impl RendererError {
    /// The text this error displays as.
    pub open spec fn message(&self) -> Seq<char> {
        match self {
            RendererError::SurfaceCreation(m) => "Failed to create wgpu surface: "@ + m@,
            RendererError::AdapterRequest(m) => "Failed to request adapter: "@ + m@,
            RendererError::DeviceRequest(m) => "Failed to request device: "@ + m@,
            RendererError::SurfaceConfiguration => "Failed to configure surface"@,
            RendererError::TextureAcquisition(m) => "Failed to get current texture: "@ + m@,
            RendererError::Render(m) => "Render error: "@ + m@,
            RendererError::Text(m) => "Text rendering error: "@ + m@,
        }
    }

    /// The error as displayed text.
    pub fn to_string(&self) -> (s: String)
        ensures
            s@ == self.message(),
    {
        let mut s = String::new();
        match self {
            RendererError::SurfaceCreation(m) => {
                push_str(&mut s, "Failed to create wgpu surface: ");
                push_str(&mut s, m.as_str());
            },
            RendererError::AdapterRequest(m) => {
                push_str(&mut s, "Failed to request adapter: ");
                push_str(&mut s, m.as_str());
            },
            RendererError::DeviceRequest(m) => {
                push_str(&mut s, "Failed to request device: ");
                push_str(&mut s, m.as_str());
            },
            RendererError::SurfaceConfiguration => {
                push_str(&mut s, "Failed to configure surface");
            },
            RendererError::TextureAcquisition(m) => {
                push_str(&mut s, "Failed to get current texture: ");
                push_str(&mut s, m.as_str());
            },
            RendererError::Render(m) => {
                push_str(&mut s, "Render error: ");
                push_str(&mut s, m.as_str());
            },
            RendererError::Text(m) => {
                push_str(&mut s, "Text rendering error: ");
                push_str(&mut s, m.as_str());
            },
        }
        proof {
            assert(s@ =~= self.message());
        }
        s
    }
}

} // verus!
